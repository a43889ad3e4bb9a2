use vstd::prelude::*;
use crate::clock::{parse_rfc3339_nanos, rfc3339_nanos};
use crate::text::push_char;

verus! {

/// What one character of a tag value becomes on the wire.
pub open spec fn tag_char_escape(c: char) -> Seq<char> {
    if c == '\\' {
        seq!['\\', '\\']
    } else if c == '\n' || c == ' ' {
        seq!['\\', ' ']
    } else if c == '\r' {
        seq![]
    } else if c == ',' {
        seq!['\\', ',']
    } else if c == '=' {
        seq!['\\', '=']
    } else {
        seq![c]
    }
}

/// A tag value escaped character by character.
pub open spec fn escape_tag(s: Seq<char>) -> Seq<char>
    decreases s.len(),
{
    if s.len() == 0 {
        seq![]
    } else {
        escape_tag(s.drop_last()) + tag_char_escape(s.last())
    }
}

/// What one character of a string field becomes between the quotes.
pub open spec fn field_char_escape(c: char) -> Seq<char> {
    if c == '\\' {
        seq!['\\', '\\']
    } else if c == '"' {
        seq!['\\', '"']
    } else if c == '\n' {
        seq!['\\', 'n']
    } else if c == '\r' {
        seq![]
    } else {
        seq![c]
    }
}

/// The escaped body of a string field, without its quotes.
pub open spec fn escape_field_body(s: Seq<char>) -> Seq<char>
    decreases s.len(),
{
    if s.len() == 0 {
        seq![]
    } else {
        escape_field_body(s.drop_last()) + field_char_escape(s.last())
    }
}

/// A string field as it stands on the wire: escaped and quoted.
pub open spec fn escape_field(s: Seq<char>) -> Seq<char> {
    seq!['"'] + escape_field_body(s) + seq!['"']
}

/// No carriage return or line feed in `s`.
pub open spec fn single_line(s: Seq<char>) -> bool {
    forall|i: int| 0 <= i < s.len() ==> s[i] != '\n' && s[i] != '\r'
}

/// The character of a decimal digit.
pub open spec fn digit_char(d: nat) -> char {
    if d == 0 { '0' } else if d == 1 { '1' } else if d == 2 { '2' } else if d == 3 { '3' }
    else if d == 4 { '4' } else if d == 5 { '5' } else if d == 6 { '6' } else if d == 7 { '7' }
    else if d == 8 { '8' } else { '9' }
}

/// The decimal digits of a natural number, most significant first.
pub open spec fn nat_decimal(n: nat) -> Seq<char>
    decreases n,
{
    if n < 10 {
        seq![digit_char(n)]
    } else {
        nat_decimal(n / 10).push(digit_char(n % 10))
    }
}

/// The decimal text of an integer, with a leading `-` when negative.
pub open spec fn int_decimal(i: int) -> Seq<char> {
    if i < 0 {
        seq!['-'] + nat_decimal((-i) as nat)
    } else {
        nat_decimal(i as nat)
    }
}

/// A line holds no raw line break whatever the escaped text was.
pub proof fn lemma_escape_tag_single_line(s: Seq<char>)
    ensures
        single_line(escape_tag(s)),
    decreases s.len(),
{
    if s.len() > 0 {
        lemma_escape_tag_single_line(s.drop_last());
    }
}

/// An escaped string field holds no raw line break.
pub proof fn lemma_escape_field_single_line(s: Seq<char>)
    ensures
        single_line(escape_field_body(s)),
        single_line(escape_field(s)),
    decreases s.len(),
{
    if s.len() > 0 {
        lemma_escape_field_single_line(s.drop_last());
    }
}

/// Decimal text holds no line break.
pub proof fn lemma_decimal_single_line(i: int)
    ensures
        single_line(int_decimal(i)),
{
    lemma_nat_decimal_single_line(if i < 0 { (-i) as nat } else { i as nat });
}

proof fn lemma_nat_decimal_single_line(n: nat)
    ensures
        single_line(nat_decimal(n)),
    decreases n,
{
    if n >= 10 {
        lemma_nat_decimal_single_line(n / 10);
    }
}

/// Escape a tag key or value: backslash, space, comma and `=` get a
/// backslash, a line feed becomes an escaped space, a carriage return is dropped.
pub fn escape_tag_value(value: &str) -> (r: String)
    ensures
        r@ == escape_tag(value@),
        single_line(r@),
{
    let mut out = String::new();
    for c in it: value.chars()
        invariant
            it.seq() == value@,
            out@ == escape_tag(value@.take(it.index() as int)),
    {
        proof {
            assert(value@.take(it.index() + 1).drop_last() == value@.take(it.index() as int));
        }
        if c == '\\' {
            push_char(&mut out, '\\');
            push_char(&mut out, '\\');
        } else if c == '\n' || c == ' ' {
            push_char(&mut out, '\\');
            push_char(&mut out, ' ');
        } else if c == '\r' {
        } else if c == ',' {
            push_char(&mut out, '\\');
            push_char(&mut out, ',');
        } else if c == '=' {
            push_char(&mut out, '\\');
            push_char(&mut out, '=');
        } else {
            push_char(&mut out, c);
        }
    }
    proof {
        assert(value@.take(value@.len() as int) == value@);
        lemma_escape_tag_single_line(value@);
    }
    out
}

/// Escape a string field value (backslash and double quote get a backslash,
/// a line feed becomes the two characters `\n`, a carriage return is dropped)
/// and wrap it in double quotes.
pub fn escape_field_string(value: &str) -> (r: String)
    ensures
        r@ == escape_field(value@),
        single_line(r@),
{
    let mut out = String::new();
    push_char(&mut out, '"');
    for c in it: value.chars()
        invariant
            it.seq() == value@,
            out@ == seq!['"'] + escape_field_body(value@.take(it.index() as int)),
    {
        proof {
            assert(value@.take(it.index() + 1).drop_last() == value@.take(it.index() as int));
        }
        if c == '\\' {
            push_char(&mut out, '\\');
            push_char(&mut out, '\\');
        } else if c == '"' {
            push_char(&mut out, '\\');
            push_char(&mut out, '"');
        } else if c == '\n' {
            push_char(&mut out, '\\');
            push_char(&mut out, 'n');
        } else if c == '\r' {
        } else {
            push_char(&mut out, c);
        }
        proof {
            assert(out@ == seq!['"'] + escape_field_body(value@.take(it.index() + 1)));
        }
    }
    push_char(&mut out, '"');
    proof {
        assert(value@.take(value@.len() as int) == value@);
        lemma_escape_field_single_line(value@);
    }
    out
}

fn digit(d: u64) -> (c: char)
    requires
        d < 10,
    ensures
        c == digit_char(d as nat),
{
    if d == 0 { '0' } else if d == 1 { '1' } else if d == 2 { '2' } else if d == 3 { '3' }
    else if d == 4 { '4' } else if d == 5 { '5' } else if d == 6 { '6' } else if d == 7 { '7' }
    else if d == 8 { '8' } else { '9' }
}

fn push_nat_decimal(out: &mut String, n: u64)
    ensures
        final(out)@ == old(out)@ + nat_decimal(n as nat),
    decreases n,
{
    if n >= 10 {
        push_nat_decimal(out, n / 10);
    }
    push_char(out, digit(n % 10));
    proof {
        if n >= 10 {
            assert(final(out)@ == old(out)@ + nat_decimal(n as nat));
        }
    }
}

/// The decimal text of `i`.
pub fn decimal_string(i: i64) -> (r: String)
    ensures
        r@ == int_decimal(i as int),
{
    let mut out = String::new();
    push_decimal(&mut out, i);
    out
}

/// Append the decimal text of `i`.
pub fn push_decimal(out: &mut String, i: i64)
    ensures
        final(out)@ == old(out)@ + int_decimal(i as int),
{
    if i < 0 {
        push_char(out, '-');
        let m: u64 = (-(i as i128)) as u64;
        push_nat_decimal(out, m);
        proof {
            assert(final(out)@ == old(out)@ + int_decimal(i as int));
        }
    } else {
        push_nat_decimal(out, i as u64);
    }
}


/// One tag: a key and its raw, unescaped value.
pub struct Tag {
    pub key: String,
    pub value: String,
}

/// The value of one field.
pub enum FieldValue {
    /// A string, escaped and quoted on the wire.
    Text(String),
    /// An integer, written in decimal with the suffix `i`.
    Integer(i64),
    /// A number already written in decimal notation, put on the wire as it is.
    Number(String),
}

/// One field: a key and its value.
pub struct Field {
    pub key: String,
    pub value: FieldValue,
}

/// What a field value is, as a mathematical value.
pub enum FieldModel {
    Text(Seq<char>),
    Integer(int),
    Number(Seq<char>),
}

impl View for Tag {
    type V = (Seq<char>, Seq<char>);

    open spec fn view(&self) -> (Seq<char>, Seq<char>) {
        (self.key@, self.value@)
    }
}

impl View for FieldValue {
    type V = FieldModel;

    open spec fn view(&self) -> FieldModel {
        match self {
            FieldValue::Text(s) => FieldModel::Text(s@),
            FieldValue::Integer(i) => FieldModel::Integer(*i as int),
            FieldValue::Number(s) => FieldModel::Number(s@),
        }
    }
}

impl View for Field {
    type V = (Seq<char>, FieldModel);

    open spec fn view(&self) -> (Seq<char>, FieldModel) {
        (self.key@, self.value@)
    }
}

/// The text a tag adds after the measurement: nothing for an empty value.
pub open spec fn tag_text(t: (Seq<char>, Seq<char>)) -> Seq<char> {
    if t.1.len() == 0 {
        seq![]
    } else {
        seq![','] + t.0 + seq!['='] + escape_tag(t.1)
    }
}

pub open spec fn tags_text(ts: Seq<(Seq<char>, Seq<char>)>) -> Seq<char>
    decreases ts.len(),
{
    if ts.len() == 0 {
        seq![]
    } else {
        tags_text(ts.drop_last()) + tag_text(ts.last())
    }
}

pub open spec fn value_text(v: FieldModel) -> Seq<char> {
    match v {
        FieldModel::Text(s) => escape_field(s),
        FieldModel::Integer(i) => int_decimal(i).push('i'),
        FieldModel::Number(s) => s,
    }
}

pub open spec fn field_text(f: (Seq<char>, FieldModel)) -> Seq<char> {
    f.0 + seq!['='] + value_text(f.1)
}

/// The fields joined by commas.
pub open spec fn fields_text(fs: Seq<(Seq<char>, FieldModel)>) -> Seq<char>
    decreases fs.len(),
{
    if fs.len() == 0 {
        seq![]
    } else if fs.len() == 1 {
        field_text(fs[0])
    } else {
        fields_text(fs.drop_last()) + seq![','] + field_text(fs.last())
    }
}

/// `measurement,tag=value,... field=value,... nanos`
pub open spec fn line_text(
    measurement: Seq<char>,
    tags: Seq<(Seq<char>, Seq<char>)>,
    fields: Seq<(Seq<char>, FieldModel)>,
    nanos: int,
) -> Seq<char> {
    measurement + tags_text(tags) + seq![' '] + fields_text(fields) + seq![' '] + int_decimal(nanos)
}

pub open spec fn tags_view(tags: Seq<Tag>) -> Seq<(Seq<char>, Seq<char>)> {
    tags.map_values(|t: Tag| t@)
}

pub open spec fn fields_view(fields: Seq<Field>) -> Seq<(Seq<char>, FieldModel)> {
    fields.map_values(|f: Field| f@)
}

fn push_str(out: &mut String, s: &str)
    ensures
        final(out)@ == old(out)@ + s@,
{
    out.append(s);
}

/// Build one line: the measurement, each tag with a non-empty value, the
/// fields joined by commas, and the timestamp in nanoseconds.
pub fn format_line(measurement: &str, tags: &Vec<Tag>, fields: &Vec<Field>, nanos: i64) -> (r: String)
    ensures
        r@ == line_text(measurement@, tags_view(tags@), fields_view(fields@), nanos as int),
{
    let mut out = String::new();
    push_str(&mut out, measurement);
    let ghost tv = tags_view(tags@);
    let mut i: usize = 0;
    while i < tags.len()
        invariant
            i <= tags.len(),
            tv == tags_view(tags@),
            out@ == measurement@ + tags_text(tv.take(i as int)),
        decreases tags.len() - i,
    {
        proof {
            assert(tv.take(i + 1).drop_last() == tv.take(i as int));
        }
        let t = &tags[i];
        if !t.value.as_str().is_empty() {
            push_char(&mut out, ',');
            push_str(&mut out, t.key.as_str());
            push_char(&mut out, '=');
            let esc = escape_tag_value(t.value.as_str());
            push_str(&mut out, esc.as_str());
        }
        i = i + 1;
        proof {
            assert(out@ == measurement@ + tags_text(tv.take(i as int)));
        }
    }
    proof {
        assert(tv.take(tags.len() as int) == tv);
    }
    push_char(&mut out, ' ');
    let ghost prefix = out@;
    let ghost fv = fields_view(fields@);
    let mut j: usize = 0;
    while j < fields.len()
        invariant
            j <= fields.len(),
            fv == fields_view(fields@),
            out@ == prefix + fields_text(fv.take(j as int)),
        decreases fields.len() - j,
    {
        proof {
            assert(fv.take(j + 1).drop_last() == fv.take(j as int));
        }
        let f = &fields[j];
        if j > 0 {
            push_char(&mut out, ',');
        }
        push_str(&mut out, f.key.as_str());
        push_char(&mut out, '=');
        match &f.value {
            FieldValue::Text(s) => {
                let esc = escape_field_string(s.as_str());
                push_str(&mut out, esc.as_str());
            },
            FieldValue::Integer(v) => {
                push_decimal(&mut out, *v);
                push_char(&mut out, 'i');
            },
            FieldValue::Number(s) => {
                push_str(&mut out, s.as_str());
            },
        }
        j = j + 1;
        proof {
            if j == 1 {
                assert(fv.take(1) == seq![fv[0]]);
            }
            assert(out@ == prefix + fields_text(fv.take(j as int)));
        }
    }
    proof {
        assert(fv.take(fields.len() as int) == fv);
    }
    push_char(&mut out, ' ');
    push_decimal(&mut out, nanos);
    out
}

fn tag(key: &str, value: &str) -> (r: Tag)
    ensures
        r@ == (key@, value@),
{
    Tag { key: String::from_str(key), value: String::from_str(value) }
}

fn field(key: &str, value: FieldValue) -> (r: Field)
    ensures
        r@ == (key@, value@),
{
    Field { key: String::from_str(key), value }
}

/// Convert an RFC 3339 timestamp to nanoseconds since the Unix epoch. A
/// text that does not parse, or an instant out of range, is an error.
pub fn timestamp_to_nanos(timestamp: &str) -> (r: Result<i64, String>)
    ensures
        match rfc3339_nanos(timestamp@) {
            Some(n) => r == Ok::<i64, String>(n),
            None => r is Err,
        },
{
    match parse_rfc3339_nanos(timestamp) {
        Some(n) => Ok(n),
        None => {
            let mut msg = String::from_str("Failed to parse timestamp '");
            push_str(&mut msg, timestamp);
            push_char(&mut msg, '\'');
            Err(msg)
        },
    }
}

pub open spec fn window_line(nanos: int, duration: int, app: Seq<char>, title: Seq<char>, hostname: Seq<char>) -> Seq<char> {
    line_text(
        "window_activity"@,
        seq![("app"@, app), ("hostname"@, hostname)],
        seq![("title"@, FieldModel::Text(title)), ("duration"@, FieldModel::Number(int_decimal(duration)))],
        nanos,
    )
}

/// The line of a window activity event at `nanos`; the duration, in whole
/// seconds, is written as a plain number.
pub fn window_event_line(nanos: i64, duration_seconds: i64, app: &str, title: &str, hostname: &str) -> (r: String)
    ensures
        r@ == window_line(nanos as int, duration_seconds as int, app@, title@, hostname@),
{
    let tags = vec![tag("app", app), tag("hostname", hostname)];
    let fields = vec![
        field("title", FieldValue::Text(String::from_str(title))),
        field("duration", FieldValue::Number(decimal_string(duration_seconds))),
    ];
    proof {
        assert(tags_view(tags@) == seq![("app"@, app@), ("hostname"@, hostname@)]);
        assert(fields_view(fields@) == seq![("title"@, FieldModel::Text(title@)), ("duration"@, FieldModel::Number(int_decimal(duration_seconds as int)))]);
    }
    format_line("window_activity", &tags, &fields, nanos)
}

/// Format a window activity event; an unparsable timestamp is an error and no line.
pub fn format_window_event(timestamp: &str, duration_seconds: i64, app: &str, title: &str, hostname: &str) -> (r: Result<String, String>)
    ensures
        match rfc3339_nanos(timestamp@) {
            Some(n) => r is Ok && r->Ok_0@ == window_line(n as int, duration_seconds as int, app@, title@, hostname@),
            None => r is Err,
        },
{
    let nanos = timestamp_to_nanos(timestamp)?;
    Ok(window_event_line(nanos, duration_seconds, app, title, hostname))
}

pub open spec fn afk_line(nanos: int, duration: int, status: Seq<char>, hostname: Seq<char>) -> Seq<char> {
    line_text(
        "afk_status"@,
        seq![("status"@, status), ("hostname"@, hostname)],
        seq![("duration"@, FieldModel::Number(int_decimal(duration)))],
        nanos,
    )
}

/// The line of an AFK status event at `nanos`; the duration, in whole
/// seconds, is written as a plain number.
pub fn afk_event_line(nanos: i64, duration_seconds: i64, status: &str, hostname: &str) -> (r: String)
    ensures
        r@ == afk_line(nanos as int, duration_seconds as int, status@, hostname@),
{
    let tags = vec![tag("status", status), tag("hostname", hostname)];
    let fields = vec![field("duration", FieldValue::Number(decimal_string(duration_seconds)))];
    proof {
        assert(tags_view(tags@) == seq![("status"@, status@), ("hostname"@, hostname@)]);
        assert(fields_view(fields@) == seq![("duration"@, FieldModel::Number(int_decimal(duration_seconds as int)))]);
    }
    format_line("afk_status", &tags, &fields, nanos)
}

/// Format an AFK status event; an unparsable timestamp is an error and no line.
pub fn format_afk_event(timestamp: &str, duration_seconds: i64, status: &str, hostname: &str) -> (r: Result<String, String>)
    ensures
        match rfc3339_nanos(timestamp@) {
            Some(n) => r is Ok && r->Ok_0@ == afk_line(n as int, duration_seconds as int, status@, hostname@),
            None => r is Err,
        },
{
    let nanos = timestamp_to_nanos(timestamp)?;
    Ok(afk_event_line(nanos, duration_seconds, status, hostname))
}

/// The day's metrics are stamped with the last second of the day.
pub open spec fn end_of_day(date: Seq<char>) -> Seq<char> {
    date + "T23:59:59Z"@
}

pub open spec fn daily_metrics_line(
    nanos: int,
    date: Seq<char>,
    active: int,
    idle: int,
    afk: int,
    utilization: Seq<char>,
    switches: int,
    hostname: Seq<char>,
) -> Seq<char> {
    line_text(
        "daily_metrics"@,
        seq![("date"@, date), ("hostname"@, hostname)],
        seq![
            ("active_seconds"@, FieldModel::Number(int_decimal(active))),
            ("idle_seconds"@, FieldModel::Number(int_decimal(idle))),
            ("afk_seconds"@, FieldModel::Number(int_decimal(afk))),
            ("utilization_ratio"@, FieldModel::Number(utilization)),
            ("app_switches"@, FieldModel::Integer(switches)),
        ],
        nanos,
    )
}

/// The line of one day's metrics at `nanos`. Seconds are whole and written as plain
/// numbers; the utilization ratio comes in decimal notation; app switches are an integer.
pub fn daily_metrics_line_at(
    nanos: i64,
    date: &str,
    active_seconds: i64,
    idle_seconds: i64,
    afk_seconds: i64,
    utilization_ratio: &str,
    app_switches: i32,
    hostname: &str,
) -> (r: String)
    ensures
        r@ == daily_metrics_line(nanos as int, date@, active_seconds as int, idle_seconds as int,
            afk_seconds as int, utilization_ratio@, app_switches as int, hostname@),
{
    let tags = vec![tag("date", date), tag("hostname", hostname)];
    let fields = vec![
        field("active_seconds", FieldValue::Number(decimal_string(active_seconds))),
        field("idle_seconds", FieldValue::Number(decimal_string(idle_seconds))),
        field("afk_seconds", FieldValue::Number(decimal_string(afk_seconds))),
        field("utilization_ratio", FieldValue::Number(String::from_str(utilization_ratio))),
        field("app_switches", FieldValue::Integer(app_switches as i64)),
    ];
    proof {
        assert(tags_view(tags@) == seq![("date"@, date@), ("hostname"@, hostname@)]);
        assert(fields_view(fields@) == seq![
            ("active_seconds"@, FieldModel::Number(int_decimal(active_seconds as int))),
            ("idle_seconds"@, FieldModel::Number(int_decimal(idle_seconds as int))),
            ("afk_seconds"@, FieldModel::Number(int_decimal(afk_seconds as int))),
            ("utilization_ratio"@, FieldModel::Number(utilization_ratio@)),
            ("app_switches"@, FieldModel::Integer(app_switches as int)),
        ]);
    }
    format_line("daily_metrics", &tags, &fields, nanos)
}

/// Format one day's metrics, stamped at the end of that day (UTC); a date
/// that does not make a timestamp is an error and no line.
pub fn format_daily_metrics(
    date: &str,
    active_seconds: i64,
    idle_seconds: i64,
    afk_seconds: i64,
    utilization_ratio: &str,
    app_switches: i32,
    hostname: &str,
) -> (r: Result<String, String>)
    ensures
        match rfc3339_nanos(end_of_day(date@)) {
            Some(n) => r is Ok && r->Ok_0@ == daily_metrics_line(n as int, date@, active_seconds as int,
                idle_seconds as int, afk_seconds as int, utilization_ratio@, app_switches as int, hostname@),
            None => r is Err,
        },
{
    let mut stamp = String::from_str(date);
    push_str(&mut stamp, "T23:59:59Z");
    let nanos = timestamp_to_nanos(stamp.as_str())?;
    Ok(daily_metrics_line_at(nanos, date, active_seconds, idle_seconds, afk_seconds, utilization_ratio,
        app_switches, hostname))
}

pub open spec fn app_usage_line(
    nanos: int,
    app_name: Seq<char>,
    duration: int,
    event_count: int,
    category: Option<Seq<char>>,
    hostname: Seq<char>,
) -> Seq<char> {
    line_text(
        "app_usage"@,
        match category {
            Some(c) => seq![("app_name"@, app_name), ("category"@, c), ("hostname"@, hostname)],
            None => seq![("app_name"@, app_name), ("hostname"@, hostname)],
        },
        seq![("duration_seconds"@, FieldModel::Number(int_decimal(duration))), ("event_count"@, FieldModel::Integer(event_count))],
        nanos,
    )
}

pub open spec fn opt_view(o: Option<&str>) -> Option<Seq<char>> {
    match o {
        Some(s) => Some(s@),
        None => None,
    }
}

/// The line of one application's usage at `nanos`; the duration, in whole
/// seconds, is written as a plain number and the event count as an integer.
pub fn app_usage_line_at(
    nanos: i64,
    app_name: &str,
    duration_seconds: i64,
    event_count: i32,
    category: Option<&str>,
    hostname: &str,
) -> (r: String)
    ensures
        r@ == app_usage_line(nanos as int, app_name@, duration_seconds as int, event_count as int,
            opt_view(category), hostname@),
{
    let mut tags = vec![tag("app_name", app_name)];
    match category {
        Some(c) => tags.push(tag("category", c)),
        None => {},
    }
    tags.push(tag("hostname", hostname));
    let fields = vec![
        field("duration_seconds", FieldValue::Number(decimal_string(duration_seconds))),
        field("event_count", FieldValue::Integer(event_count as i64)),
    ];
    proof {
        match category {
            Some(c) => {
                assert(tags_view(tags@) == seq![("app_name"@, app_name@), ("category"@, c@), ("hostname"@, hostname@)]);
            },
            None => {
                assert(tags_view(tags@) == seq![("app_name"@, app_name@), ("hostname"@, hostname@)]);
            },
        }
        assert(fields_view(fields@) == seq![
            ("duration_seconds"@, FieldModel::Number(int_decimal(duration_seconds as int))),
            ("event_count"@, FieldModel::Integer(event_count as int)),
        ]);
    }
    format_line("app_usage", &tags, &fields, nanos)
}

/// Format one application's usage; an unparsable timestamp is an error and no line.
pub fn format_app_usage(
    timestamp: &str,
    app_name: &str,
    duration_seconds: i64,
    event_count: i32,
    category: Option<&str>,
    hostname: &str,
) -> (r: Result<String, String>)
    ensures
        match rfc3339_nanos(timestamp@) {
            Some(n) => r is Ok && r->Ok_0@ == app_usage_line(n as int, app_name@, duration_seconds as int,
                event_count as int, opt_view(category), hostname@),
            None => r is Err,
        },
{
    let nanos = timestamp_to_nanos(timestamp)?;
    Ok(app_usage_line_at(nanos, app_name, duration_seconds, event_count, category, hostname))
}

proof fn lemma_single_line_concat(a: Seq<char>, b: Seq<char>)
    requires
        single_line(a),
        single_line(b),
    ensures
        single_line(a + b),
{
    assert forall|i: int| 0 <= i < (a + b).len() implies (a + b)[i] != '\n' && (a + b)[i] != '\r' by {
        if i < a.len() {
            assert((a + b)[i] == a[i]);
        } else {
            assert((a + b)[i] == b[i - a.len()]);
        }
    }
}

proof fn lemma_tags_single_line(ts: Seq<(Seq<char>, Seq<char>)>)
    requires
        forall|i: int| 0 <= i < ts.len() ==> single_line(#[trigger] ts[i].0),
    ensures
        single_line(tags_text(ts)),
    decreases ts.len(),
{
    if ts.len() > 0 {
        let init = ts.drop_last();
        assert forall|i: int| 0 <= i < init.len() implies single_line(#[trigger] init[i].0) by {
            assert(init[i] == ts[i]);
        }
        lemma_tags_single_line(init);
        let t = ts.last();
        assert(single_line(t.0));
        if t.1.len() > 0 {
            lemma_escape_tag_single_line(t.1);
            lemma_single_line_concat(seq![','], t.0);
            lemma_single_line_concat(seq![','] + t.0, seq!['=']);
            lemma_single_line_concat(seq![','] + t.0 + seq!['='], escape_tag(t.1));
        }
        lemma_single_line_concat(tags_text(init), tag_text(t));
    }
}

pub open spec fn field_single_line(f: (Seq<char>, FieldModel)) -> bool {
    single_line(f.0) && match f.1 {
        FieldModel::Number(s) => single_line(s),
        _ => true,
    }
}

proof fn lemma_field_single_line(f: (Seq<char>, FieldModel))
    requires
        field_single_line(f),
    ensures
        single_line(field_text(f)),
{
    match f.1 {
        FieldModel::Text(s) => {
            lemma_escape_field_single_line(s);
        },
        FieldModel::Integer(i) => {
            lemma_decimal_single_line(i);
            lemma_single_line_concat(int_decimal(i), seq!['i']);
            assert(int_decimal(i).push('i') == int_decimal(i) + seq!['i']);
        },
        FieldModel::Number(s) => {},
    }
    lemma_single_line_concat(f.0, seq!['=']);
    lemma_single_line_concat(f.0 + seq!['='], value_text(f.1));
}

proof fn lemma_fields_single_line(fs: Seq<(Seq<char>, FieldModel)>)
    requires
        forall|i: int| 0 <= i < fs.len() ==> field_single_line(#[trigger] fs[i]),
    ensures
        single_line(fields_text(fs)),
    decreases fs.len(),
{
    if fs.len() == 1 {
        lemma_field_single_line(fs[0]);
    } else if fs.len() > 1 {
        let init = fs.drop_last();
        assert forall|i: int| 0 <= i < init.len() implies field_single_line(#[trigger] init[i]) by {
            assert(init[i] == fs[i]);
        }
        lemma_fields_single_line(init);
        lemma_field_single_line(fs.last());
        lemma_single_line_concat(fields_text(init), seq![',']);
        lemma_single_line_concat(fields_text(init) + seq![','], field_text(fs.last()));
    }
}

/// A formatted line holds no raw line break, whatever the tag values and
/// string fields hold, as long as the measurement, the keys and the
/// pre-written numbers hold none.
pub proof fn lemma_line_single_line(
    measurement: Seq<char>,
    tags: Seq<(Seq<char>, Seq<char>)>,
    fields: Seq<(Seq<char>, FieldModel)>,
    nanos: int,
)
    requires
        single_line(measurement),
        forall|i: int| 0 <= i < tags.len() ==> single_line(#[trigger] tags[i].0),
        forall|i: int| 0 <= i < fields.len() ==> field_single_line(#[trigger] fields[i]),
    ensures
        single_line(line_text(measurement, tags, fields, nanos)),
{
    lemma_tags_single_line(tags);
    lemma_fields_single_line(fields);
    lemma_decimal_single_line(nanos);
    let a = measurement + tags_text(tags);
    lemma_single_line_concat(measurement, tags_text(tags));
    lemma_single_line_concat(a, seq![' ']);
    lemma_single_line_concat(a + seq![' '], fields_text(fields));
    lemma_single_line_concat(a + seq![' '] + fields_text(fields), seq![' ']);
    lemma_single_line_concat(a + seq![' '] + fields_text(fields) + seq![' '], int_decimal(nanos));
}

} // verus!

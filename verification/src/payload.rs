//! The JSON objects that workers and clients send.

use vstd::prelude::*;

use crate::order;
use crate::records;
use crate::text;

verus! {

/// A value in an object that is sent.
#[derive(Debug, PartialEq, Eq)]
pub enum Field {
    Text(String),
    Number(i64),
    Null,
}

pub enum FieldView {
    Text(Seq<char>),
    Number(i64),
    Null,
}

impl View for Field {
    type V = FieldView;

    open spec fn view(&self) -> FieldView {
        match self {
            Field::Text(s) => FieldView::Text(s@),
            Field::Number(n) => FieldView::Number(*n),
            Field::Null => FieldView::Null,
        }
    }
}

/// The hexadecimal digit of value `d`, in lower case.
pub open spec fn hex_digit(d: int) -> char {
    if d < 10 {
        (0x30 + d) as char
    } else {
        (0x61 + (d - 10)) as char
    }
}

/// How the character `c` stands in a JSON string.
pub open spec fn escaped_char(c: char) -> Seq<char> {
    let n = c as int;
    if c == '"' {
        Seq::empty().push('\\').push('"')
    } else if c == '\\' {
        Seq::empty().push('\\').push('\\')
    } else if n == 0x08 {
        Seq::empty().push('\\').push('b')
    } else if n == 0x09 {
        Seq::empty().push('\\').push('t')
    } else if n == 0x0a {
        Seq::empty().push('\\').push('n')
    } else if n == 0x0c {
        Seq::empty().push('\\').push('f')
    } else if n == 0x0d {
        Seq::empty().push('\\').push('r')
    } else if n < 0x20 {
        Seq::empty().push('\\').push('u').push('0').push('0').push(hex_digit(n / 16)).push(
            hex_digit(n % 16),
        )
    } else {
        Seq::empty().push(c)
    }
}

/// How the text `s` stands in a JSON string.
pub open spec fn escaped(s: Seq<char>) -> Seq<char>
    decreases s.len(),
{
    if s.len() == 0 {
        Seq::empty()
    } else {
        escaped(s.drop_last()) + escaped_char(s.last())
    }
}

/// The text `s` as a JSON string.
pub open spec fn quoted(s: Seq<char>) -> Seq<char> {
    "\""@ + escaped(s) + "\""@
}

/// A value as JSON.
pub open spec fn field_text(f: FieldView) -> Seq<char> {
    match f {
        FieldView::Text(s) => quoted(s),
        FieldView::Number(n) => text::int_text(n as int),
        FieldView::Null => "null"@,
    }
}

/// The members of an object as JSON.
pub open spec fn member_texts(keys: Seq<Seq<char>>, fields: Seq<FieldView>) -> Seq<Seq<char>> {
    Seq::new(keys.len(), |i: int| quoted(keys[i]) + ":"@ + field_text(fields[i]))
}

/// An object as JSON, without blanks.
pub open spec fn object(keys: Seq<Seq<char>>, fields: Seq<FieldView>) -> Seq<char> {
    "{"@ + text::joined(member_texts(keys, fields), ","@) + "}"@
}

/// Whether each of `keys` comes before the next, by the code points of their characters.
pub open spec fn increasing(keys: Seq<Seq<char>>) -> bool {
    forall|i: int|
        0 <= i < keys.len() - 1 ==> order::text_le(#[trigger] keys[i], keys[i + 1]) && keys[i]
            != keys[i + 1]
}

/// `to_string` of a `serde_json::Value` that is an object: its members in the order of their keys,
/// each with its key as a string, a colon, and its value; strings in quotes, with quotes, backslashes
/// and control characters escaped; numbers in decimal; no blanks. The keys are given in their order,
/// so that it does not matter whether the map sorts them or keeps them as they come.
#[verifier::external_body]
fn object_text(keys: Vec<String>, fields: Vec<Field>) -> (r: String)
    requires
        keys@.len() == fields@.len(),
        increasing(keys.deep_view()),
    ensures
        r@ == object(keys.deep_view(), records::views(fields@)),
{
    let values = fields.into_iter().map(|f| match f {
        Field::Text(s) => serde_json::Value::from(s),
        Field::Number(n) => serde_json::Value::from(n),
        Field::Null => serde_json::Value::Null,
    });
    serde_json::Value::Object(keys.into_iter().zip(values).collect()).to_string()
}

/// What a worker reports of itself.
pub open spec fn heartbeat(
    id: Seq<char>,
    hostname: Seq<char>,
    ip: Seq<char>,
    cores: u32,
) -> Seq<char> {
    object(
        Seq::empty().push("cores"@).push("hostname"@).push("id"@).push("ip_addr"@),
        Seq::empty().push(FieldView::Number(cores as i64)).push(FieldView::Text(hostname)).push(
            FieldView::Text(id),
        ).push(FieldView::Text(ip)),
    )
}

/// What a worker reports of itself.
pub fn heartbeat_payload(id: &str, hostname: &str, ip: &str, cores: u32) -> (r: String)
    ensures
        r@ == heartbeat(id@, hostname@, ip@, cores),
{
    let mut keys: Vec<String> = Vec::new();
    keys.push("cores".to_string());
    keys.push("hostname".to_string());
    keys.push("id".to_string());
    keys.push("ip_addr".to_string());
    let mut fields: Vec<Field> = Vec::new();
    fields.push(Field::Number(cores as i64));
    fields.push(Field::Text(hostname.to_string()));
    fields.push(Field::Text(id.to_string()));
    fields.push(Field::Text(ip.to_string()));
    proof {
        let k = Seq::empty().push("cores"@).push("hostname"@).push("id"@).push("ip_addr"@);
        assert(keys.deep_view() =~= k);
        assert(records::views(fields@) =~= Seq::empty().push(FieldView::Number(cores as i64)).push(
            FieldView::Text(hostname@),
        ).push(FieldView::Text(id@)).push(FieldView::Text(ip@)));
        reveal_strlit("cores");
        reveal_strlit("hostname");
        reveal_strlit("id");
        reveal_strlit("ip_addr");
        assert("cores"@[0] != "hostname"@[0]);
        assert("hostname"@[0] != "id"@[0]);
        assert("id"@.drop_first()[0] == 'd');
        assert("ip_addr"@.drop_first()[0] == 'p');
        assert(order::text_le("id"@.drop_first(), "ip_addr"@.drop_first()));
        assert(order::text_le("id"@, "ip_addr"@));
        assert("id"@.len() != "ip_addr"@.len());
        assert(increasing(k));
    }
    object_text(keys, fields)
}

/// A request for a package.
pub open spec fn package_request(
    package: Seq<char>,
    version: Option<Seq<char>>,
    worker: Seq<char>,
) -> Seq<char> {
    object(
        Seq::empty().push("package_name"@).push("version"@).push("worker_id"@),
        Seq::empty().push(FieldView::Text(package)).push(
            match version {
                Some(v) => FieldView::Text(v),
                None => FieldView::Null,
            },
        ).push(FieldView::Text(worker)),
    )
}

/// A request for a package.
pub fn package_payload(package: &str, version: &Option<String>, worker: &str) -> (r: String)
    ensures
        r@ == package_request(package@, records::opt_text(*version), worker@),
{
    let mut keys: Vec<String> = Vec::new();
    keys.push("package_name".to_string());
    keys.push("version".to_string());
    keys.push("worker_id".to_string());
    let wanted = match version {
        Some(v) => Field::Text(v.as_str().to_string()),
        None => Field::Null,
    };
    let mut fields: Vec<Field> = Vec::new();
    fields.push(Field::Text(package.to_string()));
    fields.push(wanted);
    fields.push(Field::Text(worker.to_string()));
    proof {
        let k = Seq::empty().push("package_name"@).push("version"@).push("worker_id"@);
        assert(keys.deep_view() =~= k);
        assert(records::views(fields@) =~= Seq::empty().push(FieldView::Text(package@)).push(
            wanted@,
        ).push(FieldView::Text(worker@)));
        reveal_strlit("package_name");
        reveal_strlit("version");
        reveal_strlit("worker_id");
        assert("package_name"@[0] != "version"@[0]);
        assert("version"@[0] != "worker_id"@[0]);
        assert(increasing(k));
    }
    object_text(keys, fields)
}

/// A worker's report on a job.
pub open spec fn job_report(job: Option<i64>, status: Seq<char>, worker: Seq<char>) -> Seq<char> {
    object(
        Seq::empty().push("job_id"@).push("status"@).push("worker_id"@),
        Seq::empty().push(
            match job {
                Some(id) => FieldView::Number(id),
                None => FieldView::Null,
            },
        ).push(FieldView::Text(status)).push(FieldView::Text(worker)),
    )
}

/// A worker's report on a job.
pub fn report_payload(job: Option<i64>, status: &str, worker: &str) -> (r: String)
    ensures
        r@ == job_report(job, status@, worker@),
{
    let mut keys: Vec<String> = Vec::new();
    keys.push("job_id".to_string());
    keys.push("status".to_string());
    keys.push("worker_id".to_string());
    let number = match job {
        Some(id) => Field::Number(id),
        None => Field::Null,
    };
    let mut fields: Vec<Field> = Vec::new();
    fields.push(number);
    fields.push(Field::Text(status.to_string()));
    fields.push(Field::Text(worker.to_string()));
    proof {
        let k = Seq::empty().push("job_id"@).push("status"@).push("worker_id"@);
        assert(keys.deep_view() =~= k);
        assert(records::views(fields@) =~= Seq::empty().push(number@).push(
            FieldView::Text(status@),
        ).push(FieldView::Text(worker@)));
        reveal_strlit("job_id");
        reveal_strlit("status");
        reveal_strlit("worker_id");
        assert("job_id"@[0] != "status"@[0]);
        assert("status"@[0] != "worker_id"@[0]);
        assert(increasing(k));
    }
    object_text(keys, fields)
}

/// What stands for a character inside quotes: the character itself, but for the quote, the
/// backslash and the control characters, which are written with a backslash.
pub proof fn law_escapes(c: char)
    ensures
        escaped_char('"') == "\\\""@,
        escaped_char('\\') == "\\\\"@,
        escaped_char('\n') == "\\n"@,
        escaped_char('\r') == "\\r"@,
        escaped_char('\t') == "\\t"@,
        escaped_char('\u{8}') == "\\b"@,
        escaped_char('\u{c}') == "\\f"@,
        ' ' as int <= c as int && c != '"' && c != '\\' ==> escaped_char(c) == Seq::empty().push(c),
        (c as int) < ' ' as int && c != '\n' && c != '\r' && c != '\t' && c != '\u{8}' && c
            != '\u{c}' ==> escaped_char(c) == "\\u00"@.push("01"@[c as int / 16]).push(
            "0123456789abcdef"@[c as int % 16],
        ),
{
    reveal_strlit("\\\"");
    reveal_strlit("\\\\");
    reveal_strlit("\\n");
    reveal_strlit("\\r");
    reveal_strlit("\\t");
    reveal_strlit("\\b");
    reveal_strlit("\\f");
    reveal_strlit("\\u00");
    reveal_strlit("01");
    reveal_strlit("0123456789abcdef");
    if (c as int) < 0x20 && c != '\n' && c != '\r' && c != '\t' && c != '\u{8}' && c != '\u{c}' {
        assert(hex_digit(c as int / 16) == "01"@[c as int / 16]);
        lemma_hex(c as int % 16);
        assert(escaped_char(c) =~= "\\u00"@.push("01"@[c as int / 16]).push(
            "0123456789abcdef"@[c as int % 16],
        ));
    }
}

proof fn lemma_hex(d: int)
    requires
        0 <= d < 16,
    ensures
        hex_digit(d) == "0123456789abcdef"@[d],
{
    reveal_strlit("0123456789abcdef");
    if d < 8 {
        if d < 4 {
            assert(d == 0 || d == 1 || d == 2 || d == 3);
        } else {
            assert(d == 4 || d == 5 || d == 6 || d == 7);
        }
    } else if d < 12 {
        assert(d == 8 || d == 9 || d == 10 || d == 11);
    } else {
        assert(d == 12 || d == 13 || d == 14 || d == 15);
    }
}

/// A text is escaped character by character.
pub proof fn law_escaped(s: Seq<char>, c: char)
    ensures
        escaped(Seq::empty()).len() == 0,
        escaped(s.push(c)) == escaped(s) + escaped_char(c),
        field_text(FieldView::Text(s)) == "\""@ + escaped(s) + "\""@,
        field_text(FieldView::Null) == "null"@,
{
    assert(s.push(c).drop_last() =~= s);
}

/// A number is written in decimal, without quotes.
pub proof fn law_number_fields(n: i64)
    ensures
        field_text(FieldView::Number(n)) == text::int_text(n as int),
{
}

/// A text of plain characters is its own escape.
pub proof fn law_plain_text(s: Seq<char>)
    requires
        forall|i: int|
            0 <= i < s.len() ==> ' ' as int <= #[trigger] s[i] as int && s[i] != '"' && s[i] != '\\',
    ensures
        escaped(s) == s,
    decreases s.len(),
{
    if s.len() > 0 {
        law_plain_text(s.drop_last());
        assert(' ' as int <= s[s.len() - 1] as int);
        assert(escaped(s) =~= s);
    }
}

proof fn lemma_three_members(keys: Seq<Seq<char>>, fields: Seq<FieldView>)
    requires
        keys.len() == 3,
        fields.len() == 3,
    ensures
        object(keys, fields) == "{"@ + (quoted(keys[0]) + ":"@ + field_text(fields[0]) + ","@ + (
        quoted(keys[1]) + ":"@ + field_text(fields[1])) + ","@ + (quoted(keys[2]) + ":"@ + field_text(
            fields[2],
        ))) + "}"@,
{
    let m = member_texts(keys, fields);
    assert(m.drop_last().drop_last().len() == 1);
    assert(text::joined(m.drop_last().drop_last(), ","@) == m[0]);
    assert(m.drop_last().last() == m[1]);
    assert(text::joined(m.drop_last(), ","@) == m[0] + ","@ + m[1]);
    assert(text::joined(m, ","@) == m[0] + ","@ + m[1] + ","@ + m[2]);
}

proof fn lemma_key(key: Seq<char>, whole: Seq<char>)
    requires
        escaped(key) == key,
        whole.len() == key.len() + 3,
        whole[0] == '"',
        whole.subrange(1, key.len() as int + 1) == key,
        whole[key.len() as int + 1] == '"',
        whole[key.len() as int + 2] == ':',
    ensures
        quoted(key) + ":"@ == whole,
{
    reveal_strlit("\"");
    reveal_strlit(":");
    assert forall|i: int| 0 <= i < key.len() implies key[i] == whole[i + 1] by {
        assert(whole.subrange(1, key.len() as int + 1)[i] == key[i]);
    }
    assert(quoted(key) + ":"@ =~= whole);
}

/// The package that is asked for, its version, where one is, and who asks for it, each under its
/// own key.
pub proof fn law_package_request(package: Seq<char>, version: Option<Seq<char>>, worker: Seq<char>)
    ensures
        package_request(package, version, worker) == "{"@ + ("\"package_name\":"@ + ("\""@ + escaped(
            package,
        ) + "\""@) + ","@ + ("\"version\":"@ + match version {
            Some(v) => "\""@ + escaped(v) + "\""@,
            None => "null"@,
        }) + ","@ + ("\"worker_id\":"@ + ("\""@ + escaped(worker) + "\""@))) + "}"@,
{
    let keys = Seq::empty().push("package_name"@).push("version"@).push("worker_id"@);
    let fields = Seq::empty().push(FieldView::Text(package)).push(
        match version {
            Some(v) => FieldView::Text(v),
            None => FieldView::Null,
        },
    ).push(FieldView::Text(worker));
    lemma_three_members(keys, fields);
    assert(quoted("package_name"@) + ":"@ == "\"package_name\":"@) by {
        reveal_strlit("package_name");
        reveal_strlit("\"package_name\":");
        law_plain_text("package_name"@);
        assert("\"package_name\":"@.subrange(1, 13) =~= "package_name"@);
        lemma_key("package_name"@, "\"package_name\":"@);
    }
    assert(quoted("version"@) + ":"@ == "\"version\":"@) by {
        reveal_strlit("version");
        reveal_strlit("\"version\":");
        law_plain_text("version"@);
        assert("\"version\":"@.subrange(1, 8) =~= "version"@);
        lemma_key("version"@, "\"version\":"@);
    }
    assert(quoted("worker_id"@) + ":"@ == "\"worker_id\":"@) by {
        reveal_strlit("worker_id");
        reveal_strlit("\"worker_id\":");
        law_plain_text("worker_id"@);
        assert("\"worker_id\":"@.subrange(1, 10) =~= "worker_id"@);
        lemma_key("worker_id"@, "\"worker_id\":"@);
    }
}

/// The job that was built, what became of it and who built it, each under its own key.
pub proof fn law_job_report(job: Option<i64>, status: Seq<char>, worker: Seq<char>)
    ensures
        job_report(job, status, worker) == "{"@ + ("\"job_id\":"@ + match job {
            Some(id) => text::int_text(id as int),
            None => "null"@,
        } + ","@ + ("\"status\":"@ + ("\""@ + escaped(status) + "\""@)) + ","@ + ("\"worker_id\":"@ + (
        "\""@ + escaped(worker) + "\""@))) + "}"@,
{
    let keys = Seq::empty().push("job_id"@).push("status"@).push("worker_id"@);
    let fields = Seq::empty().push(
        match job {
            Some(id) => FieldView::Number(id),
            None => FieldView::Null,
        },
    ).push(FieldView::Text(status)).push(FieldView::Text(worker));
    lemma_three_members(keys, fields);
    assert(quoted("job_id"@) + ":"@ == "\"job_id\":"@) by {
        reveal_strlit("job_id");
        reveal_strlit("\"job_id\":");
        law_plain_text("job_id"@);
        assert("\"job_id\":"@.subrange(1, 7) =~= "job_id"@);
        lemma_key("job_id"@, "\"job_id\":"@);
    }
    assert(quoted("status"@) + ":"@ == "\"status\":"@) by {
        reveal_strlit("status");
        reveal_strlit("\"status\":");
        law_plain_text("status"@);
        assert("\"status\":"@.subrange(1, 7) =~= "status"@);
        lemma_key("status"@, "\"status\":"@);
    }
    assert(quoted("worker_id"@) + ":"@ == "\"worker_id\":"@) by {
        reveal_strlit("worker_id");
        reveal_strlit("\"worker_id\":");
        law_plain_text("worker_id"@);
        assert("\"worker_id\":"@.subrange(1, 10) =~= "worker_id"@);
        lemma_key("worker_id"@, "\"worker_id\":"@);
    }
}

/// A heartbeat says each thing under its own key: how many cores, what name, which worker and at
/// what address.
pub proof fn law_heartbeat(id: Seq<char>, hostname: Seq<char>, ip: Seq<char>, cores: u32)
    ensures
        heartbeat(id, hostname, ip, cores) == "{"@ + ("\"cores\":"@ + text::int_text(cores as int)
            + ","@ + ("\"hostname\":"@ + ("\""@ + escaped(hostname) + "\""@)) + ","@ + ("\"id\":"@ + (
        "\""@ + escaped(id) + "\""@)) + ","@ + ("\"ip_addr\":"@ + ("\""@ + escaped(ip) + "\""@)))
            + "}"@,
{
    let keys = Seq::empty().push("cores"@).push("hostname"@).push("id"@).push("ip_addr"@);
    let fields = Seq::empty().push(FieldView::Number(cores as i64)).push(
        FieldView::Text(hostname),
    ).push(FieldView::Text(id)).push(FieldView::Text(ip));
    let m = member_texts(keys, fields);
    assert(text::joined(m.drop_last().drop_last().drop_last(), ","@) == m[0]);
    assert(m.drop_last().drop_last().last() == m[1]);
    assert(text::joined(m.drop_last().drop_last(), ","@) == m[0] + ","@ + m[1]);
    assert(m.drop_last().last() == m[2]);
    assert(text::joined(m.drop_last(), ","@) == m[0] + ","@ + m[1] + ","@ + m[2]);
    assert(text::joined(m, ","@) == m[0] + ","@ + m[1] + ","@ + m[2] + ","@ + m[3]);
    assert(quoted("cores"@) + ":"@ == "\"cores\":"@) by {
        reveal_strlit("cores");
        reveal_strlit("\"cores\":");
        law_plain_text("cores"@);
        assert("\"cores\":"@.subrange(1, 6) =~= "cores"@);
        lemma_key("cores"@, "\"cores\":"@);
    }
    assert(quoted("hostname"@) + ":"@ == "\"hostname\":"@) by {
        reveal_strlit("hostname");
        reveal_strlit("\"hostname\":");
        law_plain_text("hostname"@);
        assert("\"hostname\":"@.subrange(1, 9) =~= "hostname"@);
        lemma_key("hostname"@, "\"hostname\":"@);
    }
    assert(quoted("id"@) + ":"@ == "\"id\":"@) by {
        reveal_strlit("id");
        reveal_strlit("\"id\":");
        law_plain_text("id"@);
        assert("\"id\":"@.subrange(1, 3) =~= "id"@);
        lemma_key("id"@, "\"id\":"@);
    }
    assert(quoted("ip_addr"@) + ":"@ == "\"ip_addr\":"@) by {
        reveal_strlit("ip_addr");
        reveal_strlit("\"ip_addr\":");
        law_plain_text("ip_addr"@);
        assert("\"ip_addr\":"@.subrange(1, 8) =~= "ip_addr"@);
        lemma_key("ip_addr"@, "\"ip_addr\":"@);
    }
}

} // verus!

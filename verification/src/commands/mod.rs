//! What the application's commands decide, apart from reading and writing
//! the settings store and the file system: the report mail to the
//! developer, the Ollama endpoint and its model list, and the plan for
//! moving user data to another directory.

pub mod mcp;
pub mod settings;

use vstd::prelude::*;
use vstd::utf8::encode_utf8;
use crate::json::JsonValue;
use crate::text::{push_char, push_str, string_of};

verus! {

// ---------------------------------------------------------------------------
// Logs to the developer
// ---------------------------------------------------------------------------

/// The kinds of failure a report mail can be about.
#[derive(Clone, Copy, Debug, PartialEq, Eq, Structural)]
pub enum ErrorKind {
    NativeCrash,
    SidecarCrashed,
    ModelLoadFailed,
}

/// Whether a byte stands as itself in a `mailto:` component: ASCII letters,
/// digits and `-`, `_`, `.`, `~`.
pub open spec fn is_mailto_unreserved(b: u8) -> bool {
    ||| (0x41 <= b && b <= 0x5a)
    ||| (0x61 <= b && b <= 0x7a)
    ||| (0x30 <= b && b <= 0x39)
    ||| b == 0x2d
    ||| b == 0x5f
    ||| b == 0x2e
    ||| b == 0x7e
}

/// The upper-case hexadecimal digit for `d` (`d < 16`).
pub open spec fn hex_upper(d: nat) -> char {
    if d < 10 {
        (48 + d) as char
    } else {
        (55 + d) as char
    }
}

/// What one byte becomes: itself when unreserved, `%XX` otherwise.
pub open spec fn percent_encoded_byte(b: u8) -> Seq<char> {
    if is_mailto_unreserved(b) {
        seq![b as char]
    } else {
        seq!['%', hex_upper((b / 16) as nat), hex_upper((b % 16) as nat)]
    }
}

/// The percent-encoding of a byte string, byte by byte.
pub open spec fn percent_encoded(bytes: Seq<u8>) -> Seq<char>
    decreases bytes.len(),
{
    if bytes.len() == 0 {
        Seq::empty()
    } else {
        percent_encoded(bytes.drop_last()) + percent_encoded_byte(bytes.last())
    }
}

fn hex_digit_upper(d: u8) -> (c: char)
    requires
        d < 16,
    ensures
        c == hex_upper(d as nat),
{
    if d < 10 {
        (48 + d) as char
    } else {
        (55 + d) as char
    }
}

/// Percent-encodes an RFC 6068 `mailto:` component (subject or body): the
/// UTF-8 bytes of `s`, unreserved ones as they are, every other one as `%`
/// and two upper-case hexadecimal digits.
pub fn percent_encode_mailto_component(s: &str) -> (r: String)
    ensures
        r@ == percent_encoded(encode_utf8(s@)),
{
    let bytes = s.as_bytes();
    let mut out = string_of("");
    proof {
        reveal_strlit("");
        assert(bytes@.take(0) =~= Seq::<u8>::empty());
    }
    let mut i: usize = 0;
    while i < bytes.len()
        invariant
            i <= bytes.len(),
            bytes@ == encode_utf8(s@),
            out@ == percent_encoded(bytes@.take(i as int)),
        decreases bytes.len() - i,
    {
        let b = bytes[i];
        if (0x41 <= b && b <= 0x5a) || (0x61 <= b && b <= 0x7a) || (0x30 <= b && b <= 0x39) || b
            == 0x2d || b == 0x5f || b == 0x2e || b == 0x7e {
            push_char(&mut out, b as char);
        } else {
            push_char(&mut out, '%');
            push_char(&mut out, hex_digit_upper(b / 16));
            push_char(&mut out, hex_digit_upper(b % 16));
        }
        assert(bytes@.take(i + 1).drop_last() =~= bytes@.take(i as int));
        i = i + 1;
        assert(out@ =~= percent_encoded(bytes@.take(i as int)));
    }
    assert(bytes@.take(bytes.len() as int) =~= bytes@);
    out
}

/// Whether a character may stand in an encoded `mailto:` component:
/// unreserved characters and the `%` of an escape.
pub open spec fn is_encoded_char(c: char) -> bool {
    ||| ('A' <= c && c <= 'Z')
    ||| ('a' <= c && c <= 'z')
    ||| ('0' <= c && c <= '9')
    ||| c == '-'
    ||| c == '_'
    ||| c == '.'
    ||| c == '~'
    ||| c == '%'
}

/// An encoded component holds only unreserved characters and `%` escapes,
/// whatever the input: every other byte of the input was escaped.
pub proof fn law_percent_encoded_is_unreserved(bytes: Seq<u8>)
    ensures
        forall|i: int|
            0 <= i < percent_encoded(bytes).len() ==> is_encoded_char(
                #[trigger] percent_encoded(bytes)[i],
            ),
    decreases bytes.len(),
{
    if bytes.len() > 0 {
        law_percent_encoded_is_unreserved(bytes.drop_last());
        let prev = percent_encoded(bytes.drop_last());
        let b = bytes.last();
        let tail = percent_encoded_byte(b);
        assert forall|i: int| 0 <= i < tail.len() implies is_encoded_char(tail[i]) by {
            if !is_mailto_unreserved(b) && i > 0 {
                let d: nat = if i == 1 {
                    (b / 16) as nat
                } else {
                    (b % 16) as nat
                };
                assert(d < 16);
                assert(tail[i] == hex_upper(d));
            }
        }
        assert forall|i: int| 0 <= i < (prev + tail).len() implies is_encoded_char(
            #[trigger] (prev + tail)[i],
        ) by {
            if i < prev.len() {
                assert((prev + tail)[i] == prev[i]);
            } else {
                assert((prev + tail)[i] == tail[i - prev.len()]);
            }
        }
    }
}

/// The value of an upper-case hexadecimal digit.
pub open spec fn hex_value(c: char) -> int {
    if c <= '9' {
        c as int - 48
    } else {
        c as int - 55
    }
}

/// Percent-decoding, read from the end: a `%` two places before the end
/// opens the escape of the last byte; any other last character is a byte of
/// its own.
pub open spec fn percent_decoded(s: Seq<char>) -> Seq<u8>
    decreases s.len(),
{
    if s.len() == 0 {
        Seq::empty()
    } else if s.len() >= 3 && s[s.len() - 3] == '%' {
        percent_decoded(s.take(s.len() - 3)).push(
            (16 * hex_value(s[s.len() - 2]) + hex_value(s[s.len() - 1])) as u8,
        )
    } else {
        percent_decoded(s.drop_last()).push(s.last() as u8)
    }
}

proof fn lemma_percent_round_trip(bytes: Seq<u8>)
    ensures
        percent_decoded(percent_encoded(bytes)) == bytes,
        percent_encoded(bytes).len() >= bytes.len(),
        percent_encoded(bytes).len() >= 1 ==> percent_encoded(bytes).last() != '%',
        percent_encoded(bytes).len() >= 2 ==> percent_encoded(bytes)[percent_encoded(bytes).len() - 2]
            != '%',
    decreases bytes.len(),
{
    if bytes.len() > 0 {
        let init = bytes.drop_last();
        let b = bytes.last();
        lemma_percent_round_trip(init);
        let p = percent_encoded(init);
        let t = percent_encoded_byte(b);
        let e = percent_encoded(bytes);
        assert(e == p + t);
        if is_mailto_unreserved(b) {
            assert(e.drop_last() =~= p);
            assert(e.last() == b as char);
            if e.len() >= 3 {
                assert(e[e.len() - 3] == p[p.len() - 2]);
            }
            if e.len() >= 2 {
                assert(e[e.len() - 2] == p[p.len() - 1]);
            }
        } else {
            let hi = (b / 16) as nat;
            let lo = (b % 16) as nat;
            assert(e.take(e.len() - 3) =~= p);
            assert(e[e.len() - 3] == '%');
            assert(e[e.len() - 2] == hex_upper(hi));
            assert(e[e.len() - 1] == hex_upper(lo));
            assert(hex_value(hex_upper(hi)) == hi);
            assert(hex_value(hex_upper(lo)) == lo);
            assert(16 * hi + lo == b);
        }
    }
}

/// Decoding an encoded component gives back the bytes it was made from,
/// and the encoding is never shorter than they are.
pub proof fn law_percent_encoding_decodes_back(bytes: Seq<u8>)
    ensures
        percent_decoded(percent_encoded(bytes)) == bytes,
        percent_encoded(bytes).len() >= bytes.len(),
{
    lemma_percent_round_trip(bytes);
}

/// The subject line's opening words for a report about `kind`.
pub open spec fn spec_subject_tag(kind: Option<ErrorKind>) -> Seq<char> {
    match kind {
        Some(ErrorKind::NativeCrash) => "Talky crash — native"@,
        Some(ErrorKind::SidecarCrashed) => "Talky crash — Core ML sidecar"@,
        Some(ErrorKind::ModelLoadFailed) => "Talky — model load failure"@,
        None => "Talky logs"@,
    }
}

/// The subject of a report about `kind` from version `version`.
pub open spec fn spec_logs_subject(kind: Option<ErrorKind>, version: Seq<char>) -> Seq<char> {
    spec_subject_tag(kind) + " — v"@ + version
}

/// The body a report mail starts with.
pub open spec fn logs_body() -> Seq<char> {
    "Please attach the talky.log file from the Finder window that just opened.\n\nShort description of what happened:\n"@
}

/// The `mailto:` URL of a report to `support_email` about `kind` from
/// version `version`.
pub open spec fn spec_logs_mailto(support_email: Seq<char>, version: Seq<char>, kind: Option<ErrorKind>) -> Seq<char> {
    "mailto:"@ + support_email + "?subject="@ + percent_encoded(
        encode_utf8(spec_logs_subject(kind, version)),
    ) + "&body="@ + percent_encoded(encode_utf8(logs_body()))
}

/// The subject of a report about `kind` from version `version`.
pub fn logs_subject(kind: Option<ErrorKind>, version: &str) -> (r: String)
    ensures
        r@ == spec_logs_subject(kind, version@),
{
    let tag = match kind {
        Some(ErrorKind::NativeCrash) => "Talky crash — native",
        Some(ErrorKind::SidecarCrashed) => "Talky crash — Core ML sidecar",
        Some(ErrorKind::ModelLoadFailed) => "Talky — model load failure",
        None => "Talky logs",
    };
    let mut r = string_of(tag);
    push_str(&mut r, " — v");
    push_str(&mut r, version);
    r
}

/// The pre-filled `mailto:` URL that sends the logs to the developer: a
/// subject naming the failure and the version, and a body asking for the
/// log file.
pub fn logs_mailto(support_email: &str, version: &str, kind: Option<ErrorKind>) -> (r: String)
    ensures
        r@ == spec_logs_mailto(support_email@, version@, kind),
{
    let subject = logs_subject(kind, version);
    let body = "Please attach the talky.log file from the Finder window that just opened.\n\nShort description of what happened:\n";
    let mut r = string_of("mailto:");
    push_str(&mut r, support_email);
    push_str(&mut r, "?subject=");
    let s = percent_encode_mailto_component(subject.as_str());
    push_str(&mut r, s.as_str());
    push_str(&mut r, "&body=");
    let b = percent_encode_mailto_component(body);
    push_str(&mut r, b.as_str());
    r
}

// ---------------------------------------------------------------------------
// Ollama
// ---------------------------------------------------------------------------

/// `s` with every trailing `c` removed.
pub open spec fn trim_end_char(s: Seq<char>, c: char) -> Seq<char>
    decreases s.len(),
{
    if s.len() > 0 && s.last() == c {
        trim_end_char(s.drop_last(), c)
    } else {
        s
    }
}

/// `s` with the suffix `suf` removed as long as it ends with it.
pub open spec fn trim_end_suffix(s: Seq<char>, suf: Seq<char>) -> Seq<char>
    decreases s.len(),
{
    if suf.len() > 0 && s.len() >= suf.len() && s.subrange(s.len() - suf.len(), s.len() as int)
        == suf {
        trim_end_suffix(s.subrange(0, s.len() - suf.len()), suf)
    } else {
        s
    }
}

/// The Ollama server's base URL: the one given (by default
/// `http://localhost:11434`) without trailing slashes and `/v1` suffixes.
pub open spec fn spec_ollama_base(base_url: Option<Seq<char>>) -> Seq<char> {
    let given = match base_url {
        Some(b) => b,
        None => "http://localhost:11434"@,
    };
    trim_end_suffix(trim_end_char(given, '/'), "/v1"@)
}

/// The base URL of the Ollama server; see `spec_ollama_base`.
pub fn ollama_base(base_url: Option<String>) -> (r: String)
    ensures
        r@ == spec_ollama_base(
            match base_url {
                Some(b) => Some(b@),
                None => None,
            },
        ),
{
    let given = match base_url {
        Some(b) => b,
        None => string_of("http://localhost:11434"),
    };
    let cs = crate::text::chars_of(given.as_str());
    let mut end: usize = cs.len();
    assert(cs@.subrange(0, end as int) =~= cs@);
    while end > 0 && cs[end - 1] == '/'
        invariant
            end <= cs.len(),
            trim_end_char(cs@, '/') == trim_end_char(cs@.subrange(0, end as int), '/'),
        decreases end,
    {
        assert(cs@.subrange(0, end as int).drop_last() =~= cs@.subrange(0, end - 1));
        end = end - 1;
    }
    let ghost trimmed = cs@.subrange(0, end as int);
    assert(trim_end_char(cs@, '/') == trimmed);
    proof {
        reveal_strlit("/v1");
    }
    let ghost suf = "/v1"@;
    while end >= 3 && cs[end - 3] == '/' && cs[end - 2] == 'v' && cs[end - 1] == '1'
        invariant
            end <= cs.len(),
            suf == seq!['/', 'v', '1'],
            trim_end_suffix(trimmed, suf) == trim_end_suffix(cs@.subrange(0, end as int), suf),
        decreases end,
    {
        let ghost cur = cs@.subrange(0, end as int);
        assert(cur.subrange(cur.len() - 3, cur.len() as int) =~= suf);
        assert(cur.subrange(0, cur.len() - 3) =~= cs@.subrange(0, end - 3));
        end = end - 3;
    }
    proof {
        let cur = cs@.subrange(0, end as int);
        if end >= 3 {
            if cur.subrange(cur.len() - 3, cur.len() as int) == suf {
                assert(cur.subrange(cur.len() - 3, cur.len() as int)[0] == cs@[end - 3]);
                assert(cur.subrange(cur.len() - 3, cur.len() as int)[1] == cs@[end - 2]);
                assert(cur.subrange(cur.len() - 3, cur.len() as int)[2] == cs@[end - 1]);
            }
        }
    }
    let mut out: Vec<char> = Vec::new();
    let mut k: usize = 0;
    while k < end
        invariant
            k <= end <= cs.len(),
            out@ == cs@.subrange(0, k as int),
        decreases end - k,
    {
        out.push(cs[k]);
        k = k + 1;
        assert(out@ =~= cs@.subrange(0, k as int));
    }
    crate::text::string_from_chars(&out)
}

/// The URL of the Ollama tag listing.
pub fn ollama_tags_url(base_url: Option<String>) -> (r: String)
    ensures
        r@ == spec_ollama_base(
            match base_url {
                Some(b) => Some(b@),
                None => None,
            },
        ) + "/api/tags"@,
{
    let mut r = ollama_base(base_url);
    push_str(&mut r, "/api/tags");
    r
}

/// The names of the models an Ollama tag listing lists: the `name` string
/// of each entry of its `models` array, in order; entries without one are
/// skipped.
pub open spec fn listed_model_names(models: Seq<JsonValue>) -> Seq<Seq<char>>
    decreases models.len(),
{
    if models.len() == 0 {
        Seq::empty()
    } else {
        let rest = listed_model_names(models.drop_last());
        match models.last().spec_member_str("name"@) {
            Some(n) => rest.push(n),
            None => rest,
        }
    }
}

/// The model names of an Ollama tag listing (`{"models": [{"name": ..},
/// ..]}`); nothing when it has no `models` array.
pub open spec fn spec_ollama_model_names(listing: JsonValue) -> Seq<Seq<char>> {
    match listing.spec_member("models"@) {
        Some(JsonValue::Array(models)) => listed_model_names(models@),
        _ => Seq::empty(),
    }
}

/// The model names of an Ollama tag listing; see `spec_ollama_model_names`.
pub fn ollama_model_names(listing: &JsonValue) -> (r: Vec<String>)
    ensures
        crate::mcp::oauth::store::strings_view(r@) == spec_ollama_model_names(*listing),
{
    let mut names: Vec<String> = Vec::new();
    match listing.get("models") {
        Some(JsonValue::Array(models)) => {
            let mut i: usize = 0;
            while i < models.len()
                invariant
                    i <= models.len(),
                    crate::mcp::oauth::store::strings_view(names@) == listed_model_names(
                        models@.take(i as int),
                    ),
                decreases models.len() - i,
            {
                assert(models@.take(i + 1).drop_last() =~= models@.take(i as int));
                let ghost before = names@;
                match models[i].member_str("name") {
                    Some(n) => {
                        names.push(string_of(n));
                        assert(crate::mcp::oauth::store::strings_view(names@) =~= crate::mcp::oauth::store::strings_view(before).push(n@));
                    },
                    None => {},
                }
                i = i + 1;
            }
            assert(models@.take(models.len() as int) =~= models@);
        },
        _ => {},
    }
    names
}

// ---------------------------------------------------------------------------
// Moving user data
// ---------------------------------------------------------------------------

/// One file to copy from the old data directory to the new one.
#[derive(Debug)]
pub struct MigrationStep {
    /// The file's name in both directories.
    pub file_name: String,
    /// A database: copied only when the target has none yet, and a failed
    /// copy aborts the move. Otherwise a journal file: copied over whatever
    /// is there, and a failure is ignored.
    pub database: bool,
}

/// The files a move of the user data copies, in order, when `migrate` was
/// asked for and the directories differ: the two databases, then their
/// `-wal` and `-shm` journals.
pub open spec fn spec_migration_steps(migrate: bool, same_dir: bool) -> Seq<(Seq<char>, bool)> {
    if migrate && !same_dir {
        seq![
            ("sessions.db"@, true),
            ("history.db"@, true),
            ("sessions.db-wal"@, false),
            ("history.db-wal"@, false),
            ("sessions.db-shm"@, false),
            ("history.db-shm"@, false),
        ]
    } else {
        Seq::empty()
    }
}

/// A copy step as plain values.
pub open spec fn step_view(s: MigrationStep) -> (Seq<char>, bool) {
    (s.file_name@, s.database)
}

fn step(name: &str, database: bool) -> (s: MigrationStep)
    ensures
        step_view(s) == (name@, database),
{
    MigrationStep { file_name: string_of(name), database }
}

/// The files to copy when the user data moves; see `spec_migration_steps`.
pub fn migration_steps(migrate: bool, same_dir: bool) -> (r: Vec<MigrationStep>)
    ensures
        r@.map_values(|s: MigrationStep| step_view(s)) == spec_migration_steps(migrate, same_dir),
{
    let mut r: Vec<MigrationStep> = Vec::new();
    if migrate && !same_dir {
        r.push(step("sessions.db", true));
        r.push(step("history.db", true));
        r.push(step("sessions.db-wal", false));
        r.push(step("history.db-wal", false));
        r.push(step("sessions.db-shm", false));
        r.push(step("history.db-shm", false));
    }
    assert(r@.map_values(|s: MigrationStep| step_view(s)) =~= spec_migration_steps(migrate, same_dir));
    r
}

} // verus!

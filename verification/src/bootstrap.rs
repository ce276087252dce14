//! CLI bootstrap: `.env` lines, and which service socket settings are
//! legacy workspace paths to be replaced by runtime sockets.

use vstd::prelude::*;
use crate::text::{
    chars_to_string, ends_with_seq, occurs_at_exec, starts_with_seq, str_chars, trim_chars, trim_seq,
};

verus! {

/// `\` separators turned into `/`.
pub open spec fn slashes(s: Seq<char>) -> Seq<char> {
    s.map_values(|c: char| if c == '\\' { '/' } else { c })
}

/// A workspace-relative socket under `data/`.
pub open spec fn is_data_socket(s: Seq<char>) -> bool {
    starts_with_seq(s, "data/"@) && ends_with_seq(s, ".sock"@)
}

/// A socket setting that still points into the workspace's `data/`
/// directory, relative or under the current directory.
pub open spec fn legacy_socket(cwd: Seq<char>, value: Seq<char>) -> bool {
    let v = slashes(value);
    let prefix = slashes(cwd) + "/"@;
    is_data_socket(v) || (starts_with_seq(v, prefix) && is_data_socket(v.subrange(prefix.len() as int, v.len() as int)))
}

fn slashes_exec(s: &str) -> (r: Vec<char>)
    ensures
        r@ == slashes(s@),
{
    let v = str_chars(s);
    let mut out: Vec<char> = Vec::new();
    let mut i: usize = 0;
    while i < v.len()
        invariant
            i <= v.len(),
            v@ == s@,
            out@ == slashes(v@.subrange(0, i as int)),
        decreases v.len() - i,
    {
        out.push(if v[i] == '\\' { '/' } else { v[i] });
        proof {
            assert(slashes(v@.subrange(0, i + 1)) =~= slashes(v@.subrange(0, i as int)).push(
                if v@[i as int] == '\\' { '/' } else { v@[i as int] },
            ));
        }
        i += 1;
    }
    proof {
        assert(v@.subrange(0, v@.len() as int) =~= v@);
    }
    out
}

fn is_data_socket_exec(v: &Vec<char>) -> (r: bool)
    ensures
        r == is_data_socket(v@),
{
    let a = str_chars("data/");
    let b = str_chars(".sock");
    (a.len() <= v.len() && occurs_at_exec(v, &a, 0)) && (b.len() <= v.len() && occurs_at_exec(v, &b, v.len() - b.len()))
}

fn slice(v: &Vec<char>, a: usize, b: usize) -> (r: Vec<char>)
    requires
        a <= b <= v@.len(),
    ensures
        r@ == v@.subrange(a as int, b as int),
{
    let mut out: Vec<char> = Vec::new();
    let mut i: usize = a;
    while i < b
        invariant
            a <= i <= b,
            b <= v@.len(),
            out@ == v@.subrange(a as int, i as int),
        decreases b - i,
    {
        out.push(v[i]);
        proof {
            assert(v@.subrange(a as int, i + 1) =~= v@.subrange(a as int, i as int).push(v@[i as int]));
        }
        i += 1;
    }
    out
}

/// Whether a socket setting is a legacy workspace path under `data/`.
pub fn is_legacy_socket_path(cwd: &str, value: &str) -> (r: bool)
    ensures
        r == legacy_socket(cwd@, value@),
{
    let v = slashes_exec(value);
    if is_data_socket_exec(&v) {
        return true;
    }
    let mut prefix = slashes_exec(cwd);
    prefix.push('/');
    proof {
        reveal_strlit("/");
        assert(prefix@ =~= slashes(cwd@) + "/"@);
    }
    if prefix.len() <= v.len() && occurs_at_exec(&v, &prefix, 0) {
        let rest = slice(&v, prefix.len(), v.len());
        is_data_socket_exec(&rest)
    } else {
        false
    }
}

/// Whether a service socket setting should be replaced by the runtime
/// default: it is unset, or it is a legacy workspace path.
pub fn socket_needs_default(cwd: &str, current: Option<&str>) -> (r: bool)
    ensures
        r == match current {
            Some(v) => legacy_socket(cwd@, v@),
            None => true,
        },
{
    match current {
        Some(v) => is_legacy_socket_path(cwd, v),
        None => true,
    }
}

/// The first position of `c` in `s`, if any.
pub open spec fn first_index(s: Seq<char>, c: char) -> Option<int> {
    if exists|i: int| 0 <= i < s.len() && s[i] == c {
        Some(choose|i: int| 0 <= i < s.len() && s[i] == c && forall|j: int| 0 <= j < i ==> s[j] != c)
    } else {
        None
    }
}

/// The value without one pair of matching surrounding quotes.
pub open spec fn unquote(v: Seq<char>) -> Seq<char> {
    if v.len() >= 2 && ((v[0] == '"' && v.last() == '"') || (v[0] == '\'' && v.last() == '\'')) {
        v.subrange(1, v.len() - 1)
    } else {
        v
    }
}

/// The line without an `export ` prefix, trimmed.
pub open spec fn without_export(line: Seq<char>) -> Seq<char> {
    if starts_with_seq(line, "export "@) { trim_seq(line.subrange(7, line.len() as int)) } else { trim_seq(line) }
}

/// The assignment a `.env` line makes, if any: blank lines, comments and
/// lines without `=` make none; the key and value are trimmed, an empty
/// key makes none, and a value in matching quotes loses them.
pub open spec fn env_assignment(raw: Seq<char>) -> Option<(Seq<char>, Seq<char>)> {
    let line = trim_seq(raw);
    if line.len() == 0 || line[0] == '#' {
        None
    } else {
        let body = without_export(line);
        if !(exists|i: int| 0 <= i < body.len() && body[i] == '=') {
            None
        } else {
            let k = choose|i: int| 0 <= i < body.len() && body[i] == '=' && forall|j: int| 0 <= j < i ==> body[j] != '=';
            let key = trim_seq(body.subrange(0, k));
            if key.len() == 0 {
                None
            } else {
                Some((key, unquote(trim_seq(body.subrange(k + 1, body.len() as int)))))
            }
        }
    }
}

/// One `.env` assignment.
pub struct EnvAssignment {
    pub key: String,
    pub value: String,
}

/// Parses one `.env` line.
pub fn parse_env_line(raw: &str) -> (r: Option<EnvAssignment>)
    ensures
        match r {
            Some(a) => env_assignment(raw@) == Some((a.key@, a.value@)),
            None => env_assignment(raw@) is None,
        },
{
    let line = trim_chars(&str_chars(raw));
    if line.len() == 0 || line[0] == '#' {
        return None;
    }
    let export = str_chars("export ");
    proof {
        reveal_strlit("export ");
    }
    let body = if export.len() <= line.len() && occurs_at_exec(&line, &export, 0) {
        trim_chars(&slice(&line, 7, line.len()))
    } else {
        trim_chars(&line)
    };
    let mut k: usize = 0;
    while k < body.len() && body[k] != '='
        invariant
            k <= body.len(),
            forall|j: int| 0 <= j < k ==> body@[j] != '=',
        decreases body.len() - k,
    {
        k += 1;
    }
    if k == body.len() {
        return None;
    }
    proof {
        assert(body@[k as int] == '=');
        assert(exists|i: int| 0 <= i < body@.len() && body@[i] == '=');
        let kk = choose|i: int| 0 <= i < body@.len() && body@[i] == '=' && forall|j: int| 0 <= j < i ==> body@[j] != '=';
        if kk < k {
            assert(body@[kk] != '=');
        } else if kk > k {
            assert(body@[k as int] != '=');
        }
        assert(kk == k);
    }
    let key = trim_chars(&slice(&body, 0, k));
    if key.len() == 0 {
        return None;
    }
    let value = trim_chars(&slice(&body, k + 1, body.len()));
    let unq = if value.len() >= 2 && ((value[0] == '"' && value[value.len() - 1] == '"') || (value[0] == '\'' && value[value.len() - 1] == '\'')) {
        slice(&value, 1, value.len() - 1)
    } else {
        value
    };
    proof {
        assert(unq@ == unquote(value@));
        let ln = trim_seq(raw@);
        assert(ln == line@);
        let b = without_export(ln);
        assert(b == body@);
        assert(exists|i: int| 0 <= i < b.len() && b[i] == '=');
        let kk = choose|i: int| 0 <= i < b.len() && b[i] == '=' && forall|j: int| 0 <= j < i ==> b[j] != '=';
        assert(kk == k);
    }
    Some(EnvAssignment { key: chars_to_string(key.as_slice()), value: chars_to_string(unq.as_slice()) })
}

/// Law (legacy sockets): a socket path "data/<name>.sock" is a legacy
/// workspace socket, also under the current directory (however its
/// separators are written); a value that does not end in ".sock" never is.
pub proof fn law_legacy_sockets(cwd: Seq<char>, name: Seq<char>, value: Seq<char>)
    ensures
        legacy_socket(cwd, "data/"@ + name + ".sock"@),
        legacy_socket(cwd, cwd + "/"@ + "data/"@ + name + ".sock"@),
        !ends_with_seq(value, ".sock"@) ==> !legacy_socket(cwd, value),
{
    reveal_strlit("data/");
    reveal_strlit(".sock");
    reveal_strlit("/");
    let d = "data/"@;
    let k = ".sock"@;
    assert(d.len() == 5 && k.len() == 5);
    assert(d[0] == 'd' && d[1] == 'a' && d[2] == 't' && d[3] == 'a' && d[4] == '/');
    assert(k[0] == '.' && k[1] == 's' && k[2] == 'o' && k[3] == 'c' && k[4] == 'k');
    let rel = d + name + k;
    if !legacy_socket(cwd, rel) {
        let v = slashes(rel);
        assert(v.subrange(0, 5) =~= d);
        assert(v.subrange(v.len() - 5, v.len() as int) =~= k);
        assert(is_data_socket(v));
    }
    let abs = cwd + "/"@ + rel;
    assert(abs =~= cwd + "/"@ + "data/"@ + name + ".sock"@);
    if !legacy_socket(cwd, abs) {
        let v = slashes(abs);
        let prefix = slashes(cwd) + "/"@;
        assert(v.subrange(0, prefix.len() as int) =~= prefix);
        let tail = v.subrange(prefix.len() as int, v.len() as int);
        assert(tail =~= slashes(rel));
        assert(tail.subrange(0, 5) =~= d);
        assert(tail.subrange(tail.len() - 5, tail.len() as int) =~= k);
        assert(is_data_socket(tail));
    }
    if legacy_socket(cwd, value) {
        let v = slashes(value);
        let prefix = slashes(cwd) + "/"@;
        let tail = if is_data_socket(v) { v } else { v.subrange(prefix.len() as int, v.len() as int) };
        assert(ends_with_seq(tail, k));
        assert(v.subrange(v.len() - 5, v.len() as int) =~= tail.subrange(tail.len() - 5, tail.len() as int));
        assert forall|i: int| 0 <= i < 5 implies value[value.len() - 5 + i] == k[i] by {
            assert(v[value.len() - 5 + i] == k[i]);
        }
        assert(value.subrange(value.len() - 5, value.len() as int) =~= k);
    }
}

} // verus!

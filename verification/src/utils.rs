//! Shared helpers: the busy spinner and project detection.

use vstd::prelude::*;
use crate::text::{
    chars_between, find_char, find_char_in, has_prefix, lemma_find_char, skip_leading_ws,
    skip_trailing_ws, string_from_chars, to_chars, trim_matches, trim_matches_char,
    trim_start_ws, trim_ws,
};

verus! {

/// The frames of the classic Braille spinner, which works in any terminal.
pub open spec fn braille_frames() -> Seq<Seq<char>> {
    seq!["⠋"@, "⠙"@, "⠹"@, "⠸"@, "⠼"@, "⠴"@, "⠦"@, "⠧"@, "⠇"@, "⠏"@]
}

/// The frames of the dots spinner.
pub open spec fn dots_frames() -> Seq<Seq<char>> {
    seq!["⣾"@, "⣽"@, "⣻"@, "⢿"@, "⡿"@, "⣟"@, "⣯"@, "⣷"@]
}

/// The frames of the macOS-style star spinner.
pub open spec fn cc_macos_frames() -> Seq<Seq<char>> {
    seq!["."@, "+"@, "*"@, "*"@, "*"@, "*"@]
}

/// The frames of the ASCII spinner.
pub open spec fn ascii_frames() -> Seq<Seq<char>> {
    seq!["-"@, "\\"@, "|"@, "/"@]
}

/// The `i`-th frame of the Braille spinner.
pub open spec fn spinner_braille(i: int) -> Seq<char> {
    braille_frames()[i]
}

/// The views of a sequence of string slices.
pub open spec fn strs_view(s: Seq<&str>) -> Seq<Seq<char>> {
    s.map_values(|x: &str| x@)
}

/// The frames of the classic Braille spinner.
pub fn spinner_braille_frames() -> (v: Vec<&'static str>)
    ensures
        strs_view(v@) == braille_frames(),
{
    let v = vec!["⠋", "⠙", "⠹", "⠸", "⠼", "⠴", "⠦", "⠧", "⠇", "⠏"];
    proof {
        assert(strs_view(v@) =~= braille_frames());
    }
    v
}

/// The frames of the dots spinner.
pub fn spinner_dots_frames() -> (v: Vec<&'static str>)
    ensures
        strs_view(v@) == dots_frames(),
{
    let v = vec!["⣾", "⣽", "⣻", "⢿", "⡿", "⣟", "⣯", "⣷"];
    proof {
        assert(strs_view(v@) =~= dots_frames());
    }
    v
}

/// The frames of the macOS-style star spinner.
pub fn spinner_cc_macos_frames() -> (v: Vec<&'static str>)
    ensures
        strs_view(v@) == cc_macos_frames(),
{
    let v = vec![".", "+", "*", "*", "*", "*"];
    proof {
        assert(strs_view(v@) =~= cc_macos_frames());
    }
    v
}

/// The frames of the ASCII spinner.
pub fn spinner_ascii_frames() -> (v: Vec<&'static str>)
    ensures
        strs_view(v@) == ascii_frames(),
{
    let v = vec!["-", "\\", "|", "/"];
    proof {
        assert(strs_view(v@) =~= ascii_frames());
    }
    v
}

/// The number of frames of the Braille spinner.
pub const SPINNER_BRAILLE_FRAMES: usize = 10;

/// The spinner frame shown at the given tick: the frames repeat every ten ticks.
pub fn spinner_frame(tick: usize) -> (s: &'static str)
    ensures
        s@ == spinner_braille(tick as int % 10),
{
    let i = tick % SPINNER_BRAILLE_FRAMES;
    if i == 0 {
        "⠋"
    } else if i == 1 {
        "⠙"
    } else if i == 2 {
        "⠹"
    } else if i == 3 {
        "⠸"
    } else if i == 4 {
        "⠼"
    } else if i == 5 {
        "⠴"
    } else if i == 6 {
        "⠦"
    } else if i == 7 {
        "⠧"
    } else if i == 8 {
        "⠇"
    } else {
        "⠏"
    }
}

/// A line as `str::lines` yields it: without the carriage return of a
/// final "\r\n".
pub open spec fn strip_cr(l: Seq<char>) -> Seq<char> {
    if l.len() > 0 && l.last() == '\r' {
        l.drop_last()
    } else {
        l
    }
}

/// The line starts with "name" once its leading whitespace is dropped.
pub open spec fn is_name_line(l: Seq<char>) -> bool {
    has_prefix(trim_start_ws(l), "name"@)
}

/// The first line of `s` that is a name line, lines split as `str::lines`
/// splits them (a final line needs no line break).
pub open spec fn first_name_line(s: Seq<char>) -> Option<Seq<char>>
    decreases s.len(),
{
    if s.len() == 0 {
        None
    } else {
        let p = find_char(s, '\n');
        if p < 0 || p >= s.len() {
            if is_name_line(s) {
                Some(s)
            } else {
                None
            }
        } else {
            let line = strip_cr(s.take(p));
            if is_name_line(line) {
                Some(line)
            } else {
                first_name_line(s.skip(p + 1))
            }
        }
    }
}

/// The text after the first '=' of `l`, up to the next '=' or the end of
/// `l`: what `l.split('=').nth(1)` gives.
pub open spec fn second_eq_field(l: Seq<char>) -> Option<Seq<char>> {
    let i = find_char(l, '=');
    if i < 0 {
        None
    } else {
        let rest = l.skip(i + 1);
        let j = find_char(rest, '=');
        Some(
            if j < 0 {
                rest
            } else {
                rest.take(j)
            },
        )
    }
}

/// The project name a `name = "..."` line of a TOML manifest gives: the first
/// name line's value after '=', trimmed of whitespace and then of quotes.
pub open spec fn manifest_name(content: Seq<char>) -> Option<Seq<char>> {
    match first_name_line(content) {
        None => None,
        Some(l) => match second_eq_field(l) {
            None => None,
            Some(f) => Some(trim_matches_char(trim_ws(f), '"')),
        },
    }
}

/// Whether `l` is a name line.
fn name_line(l: &[char]) -> (b: bool)
    ensures
        b == is_name_line(l@),
{
    let lo = skip_leading_ws(l);
    proof {
        reveal_strlit("name");
    }
    let n = l.len();
    let b = n - lo >= 4 && l[lo] == 'n' && l[lo + 1] == 'a' && l[lo + 2] == 'm' && l[lo + 3]
        == 'e';
    proof {
        let t = l@.skip(lo as int);
        if b {
            assert(t.take(4) =~= "name"@);
        }
        if has_prefix(t, "name"@) {
            assert(t.take(4)[0] == 'n');
            assert(t.take(4)[1] == 'a');
            assert(t.take(4)[2] == 'm');
            assert(t.take(4)[3] == 'e');
        }
    }
    b
}

/// The value of a name line, as `manifest_name` describes it.
fn name_line_value(l: &[char]) -> (r: Option<String>)
    ensures
        match second_eq_field(l@) {
            None => r is None,
            Some(f) => r matches Some(s) && s@ == trim_matches_char(trim_ws(f), '"'),
        },
{
    let n = l.len();
    proof {
        assert(l@.subrange(0, n as int) =~= l@);
    }
    match find_char_in(l, 0, n, '=') {
        None => None,
        Some(i) => {
            proof {
                assert(l@.subrange(i + 1, n as int) =~= l@.skip(i + 1));
                lemma_find_char(l@.skip(i + 1), '=');
            }
            let end = match find_char_in(l, i + 1, n, '=') {
                None => n,
                Some(j) => j,
            };
            let field = chars_between(l, i + 1, end);
            proof {
                assert(field@ =~= match second_eq_field(l@) {
                    Some(f) => f,
                    None => field@,
                });
            }
            let lo = skip_leading_ws(field.as_slice());
            let hi = skip_trailing_ws(field.as_slice(), lo);
            let trimmed = chars_between(field.as_slice(), lo, hi);
            let unquoted = trim_matches(trimmed.as_slice(), '"');
            Some(string_from_chars(unquoted.as_slice(), 0, unquoted.len()))
        },
    }
}

/// The project name in a `Cargo.toml` or `pyproject.toml` manifest, if its
/// first line starting with "name" has a value after '='.
pub fn parse_manifest_name(content: &str) -> (r: Option<String>)
    ensures
        match manifest_name(content@) {
            None => r is None,
            Some(n) => r matches Some(s) && s@ == n,
        },
{
    let v = to_chars(content);
    let n = v.len();
    let mut pos: usize = 0;
    proof {
        assert(v@.skip(0) =~= v@);
    }
    while pos < n
        invariant
            pos <= n,
            n == v@.len(),
            v@ == content@,
            first_name_line(v@) == first_name_line(v@.skip(pos as int)),
        decreases n - pos,
    {
        let ghost s = v@.skip(pos as int);
        proof {
            lemma_find_char(s, '\n');
            assert(v@.subrange(pos as int, n as int) =~= s);
        }
        match find_char_in(v.as_slice(), pos, n, '\n') {
            None => {
                let line = chars_between(v.as_slice(), pos, n);
                proof {
                    assert(line@ =~= s);
                    assert(find_char(s, '\n') < 0);
                    assert(first_name_line(s) == if is_name_line(s) {
                        Some(s)
                    } else {
                        None
                    });
                }
                if name_line(line.as_slice()) {
                    return name_line_value(line.as_slice());
                } else {
                    return None;
                }
            },
            Some(p) => {
                let mut hi = p;
                if hi > pos && v[hi - 1] == '\r' {
                    hi = hi - 1;
                }
                let line = chars_between(v.as_slice(), pos, hi);
                proof {
                    assert(line@ =~= strip_cr(s.take(p - pos)));
                    assert(s.skip(p - pos + 1) =~= v@.skip(p + 1));
                }
                if name_line(line.as_slice()) {
                    return name_line_value(line.as_slice());
                }
                pos = p + 1;
            },
        }
    }
    proof {
        assert(v@.skip(pos as int) =~= Seq::<char>::empty());
    }
    None
}

/// The string at the top-level key "name" of the JSON document `content`,
/// when `content` parses as JSON and that value is a string.
pub uninterp spec fn json_name_field(content: Seq<char>) -> Option<Seq<char>>;

/// Wraps `serde_json::from_str::<serde_json::Value>` followed by
/// `Value::get("name")` and `Value::as_str`: the string under the key "name"
/// of the document, or `None` when the text is not JSON, is not an object,
/// or holds no string under that key. The result is a function of `content`
/// alone, named `json_name_field`; what that function is on given text is
/// not stated.
#[verifier::external_body]
fn package_json_name(content: &str) -> (r: Option<String>)
    ensures
        match r {
            Some(s) => json_name_field(content@) == Some(s@),
            None => json_name_field(content@) is None,
        },
{
    let value: serde_json::Value = serde_json::from_str(content).ok()?;
    value.get("name")?.as_str().map(String::from)
}

/// The view of an optional string.
pub open spec fn opt_view(o: Option<String>) -> Option<Seq<char>> {
    match o {
        Some(s) => Some(s@),
        None => None,
    }
}

/// What the working directory holds that tells what the project is: the
/// contents of the manifests that could be read, whether each manifest
/// exists, the directory's own name, and the README and AGENTS.md contents.
pub struct ProjectFiles {
    pub cargo_toml: Option<String>,
    pub package_json: Option<String>,
    pub pyproject_toml: Option<String>,
    pub has_cargo_toml: bool,
    pub has_package_json: bool,
    pub has_pyproject_toml: bool,
    pub dir_name: Option<String>,
    pub readme: Option<String>,
    pub agents_md: Option<String>,
}

/// The first of the candidate names that is present.
pub open spec fn first_some(
    a: Option<Seq<char>>,
    b: Option<Seq<char>>,
    c: Option<Seq<char>>,
    d: Option<Seq<char>>,
) -> Option<Seq<char>> {
    if a is Some {
        a
    } else if b is Some {
        b
    } else if c is Some {
        c
    } else {
        d
    }
}

/// The name a manifest's contents give, if any.
pub open spec fn manifest_name_of(o: Option<Seq<char>>) -> Option<Seq<char>> {
    match o {
        Some(c) => manifest_name(c),
        None => None,
    }
}

/// The name a package.json's contents give, if any.
pub open spec fn package_name_of(o: Option<Seq<char>>) -> Option<Seq<char>> {
    match o {
        Some(c) => json_name_field(c),
        None => None,
    }
}

/// The project's name: from Cargo.toml, else package.json, else
/// pyproject.toml, else the directory's name, else "unknown".
pub open spec fn project_name(f: ProjectFiles) -> Seq<char> {
    match first_some(
        manifest_name_of(opt_view(f.cargo_toml)),
        package_name_of(opt_view(f.package_json)),
        manifest_name_of(opt_view(f.pyproject_toml)),
        opt_view(f.dir_name),
    ) {
        Some(n) => n,
        None => "unknown"@,
    }
}

/// The project's kind, by the first manifest that exists.
pub open spec fn project_type(f: ProjectFiles) -> Seq<char> {
    if f.has_cargo_toml {
        "rust"@
    } else if f.has_package_json {
        "node"@
    } else if f.has_pyproject_toml {
        "python"@
    } else {
        "unknown"@
    }
}

/// The name a manifest's contents give, if any.
fn manifest_name_in(o: &Option<String>) -> (r: Option<String>)
    ensures
        opt_view(r) == manifest_name_of(opt_view(*o)),
{
    match o {
        Some(c) => parse_manifest_name(c.as_str()),
        None => None,
    }
}

/// The first of the candidate names that is present, else "unknown": the
/// name from Cargo.toml, from package.json, from pyproject.toml, and the
/// directory's name, in that order.
pub fn first_project_name(
    from_cargo: Option<String>,
    from_package: Option<String>,
    from_pyproject: Option<String>,
    dir_name: Option<String>,
) -> (name: String)
    ensures
        name@ == match first_some(
            opt_view(from_cargo),
            opt_view(from_package),
            opt_view(from_pyproject),
            opt_view(dir_name),
        ) {
            Some(n) => n,
            None => "unknown"@,
        },
{
    if let Some(n) = from_cargo {
        return n;
    }
    if let Some(n) = from_package {
        return n;
    }
    if let Some(n) = from_pyproject {
        return n;
    }
    match dir_name {
        Some(d) => d,
        None => "unknown".to_owned(),
    }
}

/// The project's name, by the first source that gives one.
pub fn detect_project_name(files: &ProjectFiles) -> (name: String)
    ensures
        name@ == project_name(*files),
{
    let from_cargo = manifest_name_in(&files.cargo_toml);
    let from_package = match &files.package_json {
        Some(c) => package_json_name(c.as_str()),
        None => None,
    };
    let from_pyproject = manifest_name_in(&files.pyproject_toml);
    let dir_name = match &files.dir_name {
        Some(d) => Some(d.clone()),
        None => None,
    };
    first_project_name(from_cargo, from_package, from_pyproject, dir_name)
}

/// The project's kind: "rust", "node", "python" or "unknown".
pub fn detect_project_type(files: &ProjectFiles) -> (t: String)
    ensures
        t@ == project_type(*files),
{
    if files.has_cargo_toml {
        "rust".to_owned()
    } else if files.has_package_json {
        "node".to_owned()
    } else if files.has_pyproject_toml {
        "python".to_owned()
    } else {
        "unknown".to_owned()
    }
}

/// The first `max_chars` characters of `s` (all of them if it is shorter).
pub open spec fn take_chars(s: Seq<char>, max_chars: nat) -> Seq<char> {
    if s.len() <= max_chars {
        s
    } else {
        s.take(max_chars as int)
    }
}

/// The start of the README: its first `max_chars` characters, or nothing
/// when there is no README.
pub fn readme_summary(readme: Option<&str>, max_chars: usize) -> (r: String)
    ensures
        r@ == match readme {
            Some(c) => take_chars(c@, max_chars as nat),
            None => Seq::<char>::empty(),
        },
{
    match readme {
        None => String::new(),
        Some(c) => {
            let v = to_chars(c);
            let end = if v.len() <= max_chars {
                v.len()
            } else {
                max_chars
            };
            proof {
                assert(v@.subrange(0, v@.len() as int) =~= v@);
            }
            string_from_chars(v.as_slice(), 0, end)
        },
    }
}

/// The project's kind goes by the first manifest present, in the order
/// Cargo.toml, package.json, pyproject.toml: a Cargo.toml makes it "rust";
/// else a package.json makes it "node"; else a pyproject.toml makes it
/// "python"; with none it is "unknown".
pub proof fn law_project_type(f: ProjectFiles)
    ensures
        f.has_cargo_toml ==> project_type(f) == "rust"@,
        !f.has_cargo_toml && f.has_package_json ==> project_type(f) == "node"@,
        !f.has_cargo_toml && !f.has_package_json && f.has_pyproject_toml ==> project_type(f)
            == "python"@,
        !f.has_cargo_toml && !f.has_package_json && !f.has_pyproject_toml ==> project_type(f)
            == "unknown"@,
{
}

/// The project's name goes by the first source that gives one: the name in
/// Cargo.toml, else the one in package.json, else the one in pyproject.toml,
/// else the directory's name, else "unknown".
pub proof fn law_project_name(f: ProjectFiles)
    ensures
        ({
            let cargo = manifest_name_of(opt_view(f.cargo_toml));
            let package = package_name_of(opt_view(f.package_json));
            let py = manifest_name_of(opt_view(f.pyproject_toml));
            let dir = opt_view(f.dir_name);
            &&& cargo is Some ==> project_name(f) == cargo.unwrap()
            &&& (cargo is None && package is Some) ==> project_name(f) == package.unwrap()
            &&& (cargo is None && package is None && py is Some) ==> project_name(f)
                == py.unwrap()
            &&& (cargo is None && package is None && py is None && dir is Some)
                ==> project_name(f) == dir.unwrap()
            &&& cargo is None && package is None && py is None && dir is None ==> project_name(f)
                == "unknown"@
        }),
{
}

/// The README summary is the README's start: the first `max_chars`
/// characters, or the whole text when it is shorter.
pub proof fn law_take_chars(s: Seq<char>, max_chars: nat)
    ensures
        take_chars(s, max_chars).len() == if s.len() <= max_chars {
            s.len()
        } else {
            max_chars
        },
        has_prefix(s, take_chars(s, max_chars)),
{
    assert(s.take(take_chars(s, max_chars).len() as int) =~= take_chars(s, max_chars));
}


/// The first line of `l + "\n" + rest` is `l`, and the rest follows it.
proof fn lemma_first_line(l: Seq<char>, rest: Seq<char>)
    requires
        forall|j: int| 0 <= j < l.len() ==> l[j] != '\n',
    ensures
        ({
            let s = l + "\n"@ + rest;
            &&& find_char(s, '\n') == l.len()
            &&& s.take(l.len() as int) == l
            &&& s.skip(l.len() as int + 1) == rest
        }),
{
    reveal_strlit("\n");
    let s = l + "\n"@ + rest;
    assert(s[l.len() as int] == '\n');
    assert forall|j: int| 0 <= j < s.len() && j < l.len() implies s[j] != '\n' by {
        assert(s[j] == l[j]);
    }
    crate::text::lemma_find_char_unique(s, '\n', l.len() as int);
    assert(s.take(l.len() as int) =~= l);
    assert(s.skip(l.len() as int + 1) =~= rest);
}

/// The value of the line `name = "v"`, for a `v` without quotes, '=' or
/// line breaks.
proof fn lemma_name_line_value(v: Seq<char>)
    requires
        forall|j: int| 0 <= j < v.len() ==> v[j] != '"' && v[j] != '=' && v[j] != '\n',
    ensures
        ({
            let x = "name = \""@ + v + "\""@;
            &&& forall|j: int| 0 <= j < x.len() ==> x[j] != '\n'
            &&& strip_cr(x) == x
            &&& is_name_line(x)
            &&& second_eq_field(x) matches Some(f) && trim_matches_char(trim_ws(f), '"') == v
        }),
{
    reveal_strlit("name = \"");
    reveal_strlit("\"");
    reveal_strlit("name");
    let x = "name = \""@ + v + "\""@;
    let q = "\""@ + v + "\""@;
    assert forall|j: int| 0 <= j < x.len() implies x[j] != '\n' by {
        if 8 <= j < 8 + v.len() {
            assert(x[j] == v[j - 8]);
        }
    }
    assert(x[0] == 'n');
    crate::text::lemma_trim_start_noop(x);
    assert(x.take(4) =~= "name"@);
    // The first '=' is at 5, and none follows it.
    assert forall|j: int| 0 <= j < x.len() && j < 5 implies x[j] != '=' by {}
    crate::text::lemma_find_char_unique(x, '=', 5);
    let r = x.skip(6);
    assert(r =~= " "@ + q) by {
        reveal_strlit(" ");
    }
    assert forall|j: int| 0 <= j < r.len() implies r[j] != '=' by {
        assert(r[j] == x[j + 6]);
        if 8 <= j + 6 < 8 + v.len() {
            assert(x[j + 6] == v[j + 6 - 8]);
        }
    }
    crate::text::lemma_find_char_unique(r, '=', -1);
    assert(second_eq_field(x) == Some(r));
    // Trimming whitespace leaves the quoted value.
    assert(r[0] == ' ');
    assert(r.drop_first() =~= q);
    assert(q[0] == '"');
    crate::text::lemma_trim_start_noop(q);
    assert(trim_start_ws(r) == q);
    assert(q.last() == '"');
    assert(crate::text::trim_end_ws(q) == q);
    assert(trim_ws(r) == q);
    // Trimming the quotes leaves `v`.
    let vq = v + "\""@;
    assert(q.drop_first() =~= vq);
    assert(q.len() > 0 && q[0] == '"');
    assert(crate::text::trim_start_char(q, '"') == crate::text::trim_start_char(vq, '"'));
    assert(vq.drop_last() =~= v);
    assert(vq.len() > 0 && vq.last() == '"');
    if v.len() > 0 {
        assert(vq[0] == v[0]);
        assert(crate::text::trim_start_char(vq, '"') == vq);
        assert(crate::text::trim_end_char(vq, '"') == crate::text::trim_end_char(v, '"'));
        assert(v.last() == v[v.len() - 1]);
        assert(crate::text::trim_end_char(v, '"') == v);
    } else {
        assert(vq.drop_first() =~= Seq::<char>::empty());
        assert(crate::text::trim_start_char(vq, '"') == crate::text::trim_start_char(
            vq.drop_first(),
            '"',
        ));
        assert(crate::text::trim_start_char(Seq::<char>::empty(), '"') == Seq::<char>::empty());
        assert(crate::text::trim_end_char(Seq::<char>::empty(), '"') =~= v);
    }
}

/// A manifest whose first line is `name = "v"` names the project `v`,
/// whatever follows, for any `v` without quotes, '=' or line breaks.
pub proof fn law_manifest_name_line(v: Seq<char>, rest: Seq<char>)
    requires
        forall|j: int| 0 <= j < v.len() ==> v[j] != '"' && v[j] != '=' && v[j] != '\n',
    ensures
        manifest_name("name = \""@ + v + "\""@ + "\n"@ + rest) == Some(v),
        manifest_name("name = \""@ + v + "\""@) == Some(v),
{
    let x = "name = \""@ + v + "\""@;
    lemma_name_line_value(v);
    lemma_first_line(x, rest);
    let s = x + "\n"@ + rest;
    assert(s.len() > 0);
    crate::text::lemma_find_char_unique(x, '\n', -1);
    assert(x.len() > 0) by {
        reveal_strlit("name = \"");
    }
}

/// Lines before the first one that starts with "name" (after leading
/// whitespace) do not count: dropping such a line leaves the name as it
/// was.
pub proof fn law_manifest_skips_line(l: Seq<char>, rest: Seq<char>)
    requires
        forall|j: int| 0 <= j < l.len() ==> l[j] != '\n' && l[j] != '\r',
        !has_prefix(trim_start_ws(l), "name"@),
    ensures
        manifest_name(l + "\n"@ + rest) == manifest_name(rest),
{
    lemma_first_line(l, rest);
    let s = l + "\n"@ + rest;
    assert(s.len() > 0);
    if l.len() > 0 {
        assert(l.last() == l[l.len() - 1]);
    }
    assert(strip_cr(l) == l);
}

/// Only the first line that starts with "name" counts: when it has no '=',
/// there is no name, whatever follows.
pub proof fn law_manifest_first_name_line_counts(l: Seq<char>, rest: Seq<char>)
    requires
        forall|j: int| 0 <= j < l.len() ==> l[j] != '\n' && l[j] != '\r' && l[j] != '=',
        has_prefix(trim_start_ws(l), "name"@),
    ensures
        manifest_name(l + "\n"@ + rest) is None,
{
    lemma_first_line(l, rest);
    let s = l + "\n"@ + rest;
    assert(s.len() > 0);
    if l.len() > 0 {
        assert(l.last() == l[l.len() - 1]);
    }
    assert(strip_cr(l) == l);
    crate::text::lemma_find_char_unique(l, '=', -1);
}

} // verus!

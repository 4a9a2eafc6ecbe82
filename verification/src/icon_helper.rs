//! Resolution of icon names to candidate icon files.
//!
//! A desktop entry names its icon either by an absolute path, by a file
//! name with an extension, or by a bare theme name. This module turns
//! such a value into the path of an existing file under the caller's
//! icon directories. Only the existence probe touches the filesystem;
//! every decision around it is verified.

use vstd::prelude::*;

verus! {

/// Whether a character counts as surrounding whitespace.
pub open spec fn spec_is_ws(c: char) -> bool {
    c == ' ' || c == '\t' || c == '\n' || c == '\r'
}

/// The sequence with its leading whitespace removed.
pub open spec fn spec_trim_front(s: Seq<char>) -> Seq<char>
    decreases s.len(),
{
    if s.len() > 0 && spec_is_ws(s[0]) {
        spec_trim_front(s.skip(1))
    } else {
        s
    }
}

/// The sequence with its trailing whitespace removed.
pub open spec fn spec_trim_back(s: Seq<char>) -> Seq<char>
    decreases s.len(),
{
    if s.len() > 0 && spec_is_ws(s.last()) {
        spec_trim_back(s.drop_last())
    } else {
        s
    }
}

/// The sequence with whitespace removed from both ends.
pub open spec fn spec_trim(s: Seq<char>) -> Seq<char> {
    spec_trim_back(spec_trim_front(s))
}

/// An absolute path: it starts at the root.
pub open spec fn spec_is_absolute(s: Seq<char>) -> bool {
    s.len() > 0 && s[0] == '/'
}

/// Whether the path's final name carries an extension: a dot after the
/// name's first character, with no directory separator after it.
pub open spec fn spec_has_extension(s: Seq<char>) -> bool {
    exists|i: int|
        0 < i < s.len() && #[trigger] s[i] == '.' && s[i - 1] != '/' && (forall|j: int|
            i < j < s.len() ==> #[trigger] s[j] != '/')
}

fn is_ws(c: char) -> (r: bool)
    ensures
        r == spec_is_ws(c),
{
    c == ' ' || c == '\t' || c == '\n' || c == '\r'
}

fn trim<'a>(s: &'a str) -> (t: &'a str)
    ensures
        t@ == spec_trim(s@),
{
    let n = s.unicode_len();
    proof {
        assert(s@.skip(0) =~= s@);
    }
    let mut a: usize = 0;
    while a < n && is_ws(s.get_char(a))
        invariant
            a <= n,
            n == s@.len(),
            spec_trim_front(s@) == spec_trim_front(s@.skip(a as int)),
        decreases n - a,
    {
        proof {
            assert(s@.skip(a as int).skip(1) =~= s@.skip(a as int + 1));
        }
        a = a + 1;
    }
    proof {
        if a < n {
            assert(spec_trim_front(s@.skip(a as int)) == s@.skip(a as int));
        } else {
            assert(s@.skip(a as int) =~= Seq::<char>::empty());
        }
        assert(spec_trim_front(s@) == s@.skip(a as int));
    }
    proof {
        assert(s@.skip(a as int) =~= s@.subrange(a as int, n as int));
    }
    let mut b: usize = n;
    while b > a && is_ws(s.get_char(b - 1))
        invariant
            a <= b <= n,
            n == s@.len(),
            spec_trim_front(s@) == s@.skip(a as int),
            spec_trim_back(s@.skip(a as int)) == spec_trim_back(s@.subrange(a as int, b as int)),
        decreases b,
    {
        proof {
            assert(s@.subrange(a as int, b as int).drop_last() =~= s@.subrange(
                a as int,
                b as int - 1,
            ));
            assert(s@.subrange(a as int, b as int).last() == s@[b - 1]);
        }
        b = b - 1;
    }
    proof {
        if b > a {
            assert(s@.subrange(a as int, b as int).last() == s@[b - 1]);
            assert(spec_trim_back(s@.subrange(a as int, b as int)) == s@.subrange(
                a as int,
                b as int,
            ));
        } else {
            assert(s@.subrange(a as int, b as int) =~= Seq::<char>::empty());
        }
    }
    let t = s.substring_char(a, b);
    proof {
        assert(t@ == spec_trim(s@));
    }
    t
}

fn has_extension(s: &str) -> (r: bool)
    ensures
        r == spec_has_extension(s@),
{
    let n = s.unicode_len();
    if n == 0 {
        return false;
    }
    let mut j: usize = n - 1;
    while j >= 1
        invariant
            j <= n - 1,
            n == s@.len(),
            n >= 1,
            forall|m: int| j < m < n ==> #[trigger] s@[m] != '/',
            forall|m: int| j < m < n ==> !(#[trigger] s@[m] == '.' && s@[m - 1] != '/'),
        decreases j,
    {
        let c = s.get_char(j);
        if c == '/' {
            proof {
                assert forall|i: int|
                    0 < i < s@.len() && #[trigger] s@[i] == '.' && s@[i - 1] != '/' implies !(
                forall|m: int| i < m < s@.len() ==> #[trigger] s@[m] != '/') by {
                    if i > j {
                        assert(!(s@[i] == '.' && s@[i - 1] != '/'));
                    } else {
                        assert(s@[j as int] == '/');
                    }
                }
            }
            return false;
        }
        if c == '.' {
            if s.get_char(j - 1) != '/' {
                return true;
            }
        }
        j = j - 1;
    }
    proof {
        assert forall|i: int|
            0 < i < s@.len() && #[trigger] s@[i] == '.' && s@[i - 1] != '/' implies false by {
            assert(!(s@[i] == '.' && s@[i - 1] != '/'));
        }
    }
    false
}

/// The leading run of non-whitespace characters.
pub open spec fn spec_token_head(s: Seq<char>) -> Seq<char>
    decreases s.len(),
{
    if s.len() > 0 && !spec_is_ws(s[0]) {
        seq![s[0]] + spec_token_head(s.skip(1))
    } else {
        Seq::empty()
    }
}

/// The first whitespace-delimited token of the line.
pub open spec fn spec_first_token(s: Seq<char>) -> Seq<char> {
    spec_token_head(spec_trim_front(s))
}

/// The sequence with its leading quotes removed.
pub open spec fn spec_trim_quotes_front(s: Seq<char>) -> Seq<char>
    decreases s.len(),
{
    if s.len() > 0 && s[0] == '"' {
        spec_trim_quotes_front(s.skip(1))
    } else {
        s
    }
}

/// The sequence with its trailing quotes removed.
pub open spec fn spec_trim_quotes_back(s: Seq<char>) -> Seq<char>
    decreases s.len(),
{
    if s.len() > 0 && s.last() == '"' {
        spec_trim_quotes_back(s.drop_last())
    } else {
        s
    }
}

/// The sequence with quotes removed from both ends.
pub open spec fn spec_trim_quotes(s: Seq<char>) -> Seq<char> {
    spec_trim_quotes_back(spec_trim_quotes_front(s))
}

/// The path's final name: everything after the last separator.
pub open spec fn spec_after_last_slash(s: Seq<char>) -> Seq<char>
    decreases s.len(),
{
    if s.len() == 0 {
        s
    } else if s.last() == '/' {
        Seq::empty()
    } else {
        spec_after_last_slash(s.drop_last()).push(s.last())
    }
}

/// The name without its extension: everything up to the last dot, when
/// a dot stands after the name's first character; the whole name else.
pub open spec fn spec_file_stem(s: Seq<char>) -> Seq<char>
    decreases s.len(),
{
    if s.len() <= 1 {
        s
    } else if s.last() == '.' {
        s.drop_last()
    } else {
        let r = spec_file_stem(s.drop_last());
        if r == s.drop_last() {
            s
        } else {
            r
        }
    }
}

/// Whether a desktop entry's command line names the application: its
/// first token, stripped of surrounding quotes, is the application id
/// itself, or is a path whose file stem is the application id.
pub open spec fn spec_exec_matches(line: Seq<char>, app_id: Seq<char>) -> bool {
    let raw = spec_first_token(line);
    if raw.len() == 0 {
        false
    } else {
        let token = spec_trim_quotes(raw);
        token == app_id || ({
            let name = spec_after_last_slash(token);
            name.len() > 0 && spec_file_stem(name) == app_id
        })
    }
}

/// `spec_token_head` is the prefix up to the first whitespace.
proof fn lemma_token_head_take(u: Seq<char>, k: int)
    requires
        0 <= k <= u.len(),
        forall|j: int| 0 <= j < k ==> !spec_is_ws(#[trigger] u[j]),
        k == u.len() || spec_is_ws(u[k]),
    ensures
        spec_token_head(u) == u.take(k),
    decreases k,
{
    if k == 0 {
        assert(u.take(0) =~= Seq::<char>::empty());
    } else {
        lemma_token_head_take(u.skip(1), k - 1);
        assert(forall|j: int| 0 <= j < u.skip(1).len() ==> #[trigger] u.skip(1)[j] == u[j + 1]);
        assert(seq![u[0]] + u.skip(1).take(k - 1) =~= u.take(k));
    }
}

/// `spec_after_last_slash` is the suffix past the last separator.
proof fn lemma_after_last_slash_take(s: Seq<char>, k: int)
    requires
        0 <= k <= s.len(),
        k == 0 || s[k - 1] == '/',
        forall|j: int| k <= j < s.len() ==> #[trigger] s[j] != '/',
    ensures
        spec_after_last_slash(s) == s.subrange(k, s.len() as int),
    decreases s.len(),
{
    if s.len() == 0 {
        assert(s.subrange(0, 0) =~= s);
    } else if s.last() == '/' {
        assert(s.subrange(k, s.len() as int) =~= Seq::<char>::empty());
    } else {
        lemma_after_last_slash_take(s.drop_last(), k);
        assert(s.drop_last().subrange(k, s.len() - 1) =~= s.subrange(k, s.len() - 1));
        assert(s.subrange(k, s.len() - 1).push(s.last()) =~= s.subrange(k, s.len() as int));
    }
}

/// `spec_file_stem` cuts exactly at the last dot past the first
/// character.
proof fn lemma_file_stem_dot(s: Seq<char>, i: int)
    requires
        1 <= i < s.len(),
        s[i] == '.',
        forall|j: int| i < j < s.len() ==> #[trigger] s[j] != '.',
    ensures
        spec_file_stem(s) == s.take(i),
    decreases s.len(),
{
    if s.last() == '.' {
        assert(i == s.len() - 1);
        assert(s.drop_last() =~= s.take(i));
    } else {
        lemma_file_stem_dot(s.drop_last(), i);
        assert(s.drop_last().take(i) =~= s.take(i));
        assert(spec_file_stem(s.drop_last()).len() == i);
    }
}

/// Without a dot past the first character, the stem is the whole name.
proof fn lemma_file_stem_whole(s: Seq<char>)
    requires
        forall|j: int| 1 <= j < s.len() ==> #[trigger] s[j] != '.',
    ensures
        spec_file_stem(s) == s,
    decreases s.len(),
{
    if s.len() > 1 {
        lemma_file_stem_whole(s.drop_last());
    }
}

fn str_eq(a: &str, b: &str) -> (r: bool)
    ensures
        r == (a@ == b@),
{
    let n = a.unicode_len();
    if n != b.unicode_len() {
        return false;
    }
    let mut i: usize = 0;
    while i < n
        invariant
            n == a@.len(),
            n == b@.len(),
            i <= n,
            forall|j: int| 0 <= j < i ==> a@[j] == b@[j],
        decreases n - i,
    {
        if a.get_char(i) != b.get_char(i) {
            return false;
        }
        i = i + 1;
    }
    proof {
        assert(a@ =~= b@);
    }
    true
}

/// Relies on `std::path::Path::exists`: whether anything exists at this
/// path right now. The answer depends on the filesystem of the moment,
/// so nothing is assumed about it.
#[verifier::external_body]
fn path_exists(path: &str) -> bool {
    std::path::Path::new(path).exists()
}

fn join_path(dir: &str, name: &str) -> (r: String)
    ensures
        r@ == dir@ + "/"@ + name@,
{
    let joined = dir.to_owned().concat("/");
    joined.concat(name)
}

/// Finds icon files for applications among a fixed set of directories.
pub struct IconHelper;

impl IconHelper {
    /// Search the given icon directories for a file of this name. Any
    /// path returned is one of the directories joined with the name;
    /// with no directories there is nothing to find.
    pub fn find_icon_file(icon_dirs: &Vec<String>, file_name: &str) -> (r: Option<String>)
        ensures
            r matches Some(p) ==> exists|i: int|
                0 <= i < icon_dirs@.len() && p@ == #[trigger] icon_dirs@[i]@ + "/"@ + file_name@,
            icon_dirs@.len() == 0 ==> r is None,
    {
        let mut i: usize = 0;
        while i < icon_dirs.len()
            invariant
                i <= icon_dirs@.len(),
            decreases icon_dirs@.len() - i,
        {
            let path = join_path(icon_dirs[i].as_str(), file_name);
            if path_exists(path.as_str()) {
                return Some(path);
            }
            i = i + 1;
        }
        None
    }

    /// Whether a desktop entry's command line names the application:
    /// its first token, stripped of surrounding quotes, equals the
    /// application id, or is a path whose file stem does.
    pub fn exec_matches_app_id(command_line: &str, app_id: &str) -> (r: bool)
        ensures
            r == spec_exec_matches(command_line@, app_id@),
    {
        let n = command_line.unicode_len();
        proof {
            assert(command_line@.skip(0) =~= command_line@);
        }
        let mut a: usize = 0;
        while a < n && is_ws(command_line.get_char(a))
            invariant
                a <= n,
                n == command_line@.len(),
                spec_trim_front(command_line@) == spec_trim_front(command_line@.skip(a as int)),
            decreases n - a,
        {
            proof {
                assert(command_line@.skip(a as int).skip(1) =~= command_line@.skip(a as int + 1));
            }
            a = a + 1;
        }
        proof {
            if a < n {
                assert(spec_trim_front(command_line@.skip(a as int)) == command_line@.skip(
                    a as int,
                ));
            } else {
                assert(command_line@.skip(a as int) =~= Seq::<char>::empty());
            }
            assert(spec_trim_front(command_line@) == command_line@.skip(a as int));
        }
        let mut b: usize = a;
        while b < n && !is_ws(command_line.get_char(b))
            invariant
                a <= b <= n,
                n == command_line@.len(),
                forall|j: int| a <= j < b ==> !spec_is_ws(#[trigger] command_line@[j]),
            decreases n - b,
        {
            b = b + 1;
        }
        proof {
            let u = command_line@.skip(a as int);
            assert(forall|j: int| 0 <= j < u.len() ==> #[trigger] u[j] == command_line@[a + j]);
            lemma_token_head_take(u, b - a);
            assert(u.take(b - a) =~= command_line@.subrange(a as int, b as int));
            assert(spec_first_token(command_line@) == command_line@.subrange(a as int, b as int));
        }
        if b == a {
            return false;
        }
        let ghost raw = command_line@.subrange(a as int, b as int);
        let mut qa = a;
        while qa < b && command_line.get_char(qa) == '"'
            invariant
                a <= qa <= b <= n,
                n == command_line@.len(),
                raw == command_line@.subrange(a as int, b as int),
                spec_trim_quotes_front(raw) == spec_trim_quotes_front(
                    command_line@.subrange(qa as int, b as int),
                ),
            decreases b - qa,
        {
            proof {
                assert(command_line@.subrange(qa as int, b as int).skip(1)
                    =~= command_line@.subrange(qa as int + 1, b as int));
            }
            qa = qa + 1;
        }
        proof {
            if qa == b {
                assert(command_line@.subrange(qa as int, b as int) =~= Seq::<char>::empty());
            }
            assert(spec_trim_quotes_front(raw) == command_line@.subrange(qa as int, b as int));
        }
        let mut qb = b;
        while qb > qa && command_line.get_char(qb - 1) == '"'
            invariant
                a <= qa <= qb <= b <= n,
                n == command_line@.len(),
                spec_trim_quotes_front(raw) == command_line@.subrange(qa as int, b as int),
                spec_trim_quotes_back(command_line@.subrange(qa as int, b as int))
                    == spec_trim_quotes_back(command_line@.subrange(qa as int, qb as int)),
            decreases qb,
        {
            proof {
                assert(command_line@.subrange(qa as int, qb as int).drop_last()
                    =~= command_line@.subrange(qa as int, qb as int - 1));
                assert(command_line@.subrange(qa as int, qb as int).last()
                    == command_line@[qb - 1]);
            }
            qb = qb - 1;
        }
        proof {
            if qb > qa {
                assert(command_line@.subrange(qa as int, qb as int).last()
                    == command_line@[qb - 1]);
            } else {
                assert(command_line@.subrange(qa as int, qb as int) =~= Seq::<char>::empty());
            }
            assert(spec_trim_quotes(raw) == command_line@.subrange(qa as int, qb as int));
        }
        let token = command_line.substring_char(qa, qb);
        proof {
            assert(token@ == spec_trim_quotes(raw));
        }
        if str_eq(token, app_id) {
            return true;
        }
        // the token as a path: compare the file stem of its final name
        let m = token.unicode_len();
        let mut k: usize = m;
        while k > 0 && token.get_char(k - 1) != '/'
            invariant
                k <= m,
                m == token@.len(),
                forall|j: int| k <= j < m ==> #[trigger] token@[j] != '/',
            decreases k,
        {
            k = k - 1;
        }
        proof {
            lemma_after_last_slash_take(token@, k as int);
        }
        if k == m {
            // the name is empty: nothing carries a stem
            return false;
        }
        let name = token.substring_char(k, m);
        proof {
            assert(name@ == spec_after_last_slash(token@));
        }
        let nm = m - k;
        let mut d: usize = nm;
        while d > 1 && name.get_char(d - 1) != '.'
            invariant
                d <= nm,
                nm == name@.len(),
                forall|j: int| d <= j < nm && j >= 1 ==> #[trigger] name@[j] != '.',
            decreases d,
        {
            d = d - 1;
        }
        if d > 1 {
            proof {
                lemma_file_stem_dot(name@, d as int - 1);
            }
            let stem = name.substring_char(0, d - 1);
            proof {
                assert(stem@ =~= name@.take(d as int - 1));
            }
            str_eq(stem, app_id)
        } else {
            proof {
                lemma_file_stem_whole(name@);
            }
            str_eq(name, app_id)
        }
    }

    /// Resolve a desktop entry's icon value: an absolute path is taken
    /// as it stands when something exists there; a name carrying an
    /// extension is searched as such among the icon directories; a bare
    /// name is searched with `.png` appended. Whatever comes back is
    /// built from the trimmed value in exactly one of those three ways.
    pub fn resolve_icon_path(icon_dirs: &Vec<String>, icon_value: &str) -> (r: Option<String>)
        ensures
            spec_trim(icon_value@).len() == 0 ==> r is None,
            r matches Some(p) ==> ({
                let t = spec_trim(icon_value@);
                ||| (spec_is_absolute(t) && p@ == t)
                ||| (spec_has_extension(t) && exists|i: int|
                    0 <= i < icon_dirs@.len() && p@ == #[trigger] icon_dirs@[i]@ + "/"@ + t)
                ||| (!spec_has_extension(t) && exists|i: int|
                    0 <= i < icon_dirs@.len() && p@ == #[trigger] icon_dirs@[i]@ + "/"@ + (t
                        + ".png"@))
            }),
    {
        let t = trim(icon_value);
        if t.unicode_len() == 0 {
            return None;
        }
        if t.get_char(0) == '/' && path_exists(t) {
            return Some(t.to_owned());
        }
        if has_extension(t) {
            return IconHelper::find_icon_file(icon_dirs, t);
        }
        let with_png = t.to_owned().concat(".png");
        let r = IconHelper::find_icon_file(icon_dirs, with_png.as_str());
        r
    }
}

} // verus!

//! File paths as text, with `/` between components.

use crate::text::{cat, chars_of, same, skip_chars, starts_with};
use vstd::prelude::*;
use vstd::string::*;

verus! {

/// A path below a base directory: an absolute path stands for itself, any other follows the base.
pub open spec fn joined_path(base: Seq<char>, rest: Seq<char>) -> Seq<char> {
    if rest.len() > 0 && rest[0] == '/' {
        rest
    } else if base.len() == 0 || base.last() == '/' {
        base + rest
    } else {
        base + seq!['/'] + rest
    }
}

/// A path below a base directory.
pub fn join_path(base: &str, rest: &str) -> (r: String)
    ensures
        r@ == joined_path(base@, rest@),
{
    let b = chars_of(base);
    let x = chars_of(rest);
    if x.len() > 0 && x[0] == '/' {
        rest.to_string()
    } else if b.len() == 0 || b[b.len() - 1] == '/' {
        cat(base, rest)
    } else {
        let mut out = base.to_string();
        out.push('/');
        out.append(rest);
        assert(base@.push('/') + rest@ == base@ + seq!['/'] + rest@);
        out
    }
}

/// Why a path cannot be resolved.
#[derive(Debug, Clone, Copy, PartialEq, Eq, Structural)]
pub enum PathError {
    /// The path begins with `~` and the home directory is unknown.
    HomeNotSet,
}

/// The path starts from the home directory.
pub open spec fn from_home(path: Seq<char>) -> bool {
    path == "~"@ || "~/"@.is_prefix_of(path)
}

/// A path as a tool means it: `~` is the home directory, a relative path is below the working
/// directory, an absolute path stands for itself.
pub open spec fn resolved(
    path: Seq<char>,
    cwd: Seq<char>,
    home: Option<Seq<char>>,
) -> Result<Seq<char>, PathError> {
    if from_home(path) {
        match home {
            Some(h) => Ok(
                if path == "~"@ {
                    h
                } else {
                    joined_path(h, path.skip(2))
                },
            ),
            None => Err(PathError::HomeNotSet),
        }
    } else {
        Ok(joined_path(cwd, path))
    }
}

/// The content of the result of resolving a path.
pub open spec fn path_view(r: Result<String, PathError>) -> Result<Seq<char>, PathError> {
    match r {
        Ok(p) => Ok(p@),
        Err(e) => Err(e),
    }
}

/// Handles `~/…` expansion and relative paths (resolved against `cwd`).
pub fn resolve(path: &str, cwd: &str, home: Option<&str>) -> (r: Result<String, PathError>)
    ensures
        path_view(r) == resolved(path@, cwd@, crate::json::opt_text(home)),
{
    let whole_home = same(path, "~");
    if whole_home || starts_with(path, "~/") {
        match home {
            Some(h) => if whole_home {
                Ok(h.to_string())
            } else {
                proof {
                    reveal_strlit("~/");
                    assert("~/"@.len() == 2);
                }
                Ok(join_path(h, skip_chars(path, 2).as_str()))
            },
            None => Err(PathError::HomeNotSet),
        }
    } else {
        Ok(join_path(cwd, path))
    }
}

/// A setting that names a file: `~/` is the home directory where that is known.
pub open spec fn expanded(path: Seq<char>, home: Option<Seq<char>>) -> Seq<char> {
    if "~/"@.is_prefix_of(path) && home is Some {
        joined_path(home->0, path.skip(2))
    } else {
        path
    }
}

/// A setting that names a file, with `~/` expanded where the home directory is known.
pub fn expand_tilde(s: &str, home: Option<&str>) -> (r: String)
    ensures
        r@ == expanded(s@, crate::json::opt_text(home)),
{
    if starts_with(s, "~/") {
        if let Some(h) = home {
            proof {
                reveal_strlit("~/");
                assert("~/"@.len() == 2);
            }
            return join_path(h, skip_chars(s, 2).as_str());
        }
    }
    s.to_string()
}

/// The directory of the program's own files.
pub open spec fn config_dir(home: Option<Seq<char>>) -> Seq<char> {
    let base = match home {
        Some(h) => h,
        None => "."@,
    };
    joined_path(joined_path(base, ".config"@), "kaku"@)
}

/// The directory of the program's own files; below the current directory when there is no home.
pub fn kaku_config_dir(home: Option<&str>) -> (r: String)
    ensures
        r@ == config_dir(crate::json::opt_text(home)),
{
    let base = match home {
        Some(h) => h,
        None => ".",
    };
    join_path(join_path(base, ".config").as_str(), "kaku")
}

/// The path to the local memory file.
pub fn memory_file_path(home: Option<&str>) -> (r: String)
    ensures
        r@ == joined_path(config_dir(crate::json::opt_text(home)), "ai_chat_memory.md"@),
{
    join_path(kaku_config_dir(home).as_str(), "ai_chat_memory.md")
}

/// The path to the file whose presence means that the user has seen the onboarding greeting.
pub fn onboarding_flag_path(home: Option<&str>) -> (r: String)
    ensures
        r@ == joined_path(config_dir(crate::json::opt_text(home)), "ai_chat_onboarded"@),
{
    join_path(kaku_config_dir(home).as_str(), "ai_chat_onboarded")
}

// ---- Containment -------------------------------------------------------------------------------

/// The pieces of a path between its slashes.
pub open spec fn pieces(path: Seq<u8>) -> Seq<Seq<u8>>
    decreases path.len(),
{
    if path.len() == 0 {
        seq![Seq::empty()]
    } else {
        let front = pieces(path.drop_last());
        if path.last() == 47u8 {
            front.push(Seq::empty())
        } else {
            front.drop_last().push(front.last().push(path.last()))
        }
    }
}

/// A piece that names something: neither empty nor the current directory.
pub open spec fn names(piece: Seq<u8>) -> bool {
    piece.len() > 0 && piece != seq![46u8]
}

/// How a path begins: at the root, explicitly at the current directory, or with a name.
pub open spec fn start(path: Seq<u8>) -> Seq<Seq<u8>> {
    if path.len() > 0 && path[0] == 47u8 {
        seq![seq![47u8]]
    } else if path.len() > 0 && path[0] == 46u8 && (path.len() == 1 || path[1] == 47u8) {
        seq![seq![46u8]]
    } else {
        Seq::empty()
    }
}

/// The components of a path: how it begins, then every piece that names something.
pub open spec fn components(path: Seq<u8>) -> Seq<Seq<u8>> {
    start(path) + pieces(path).filter(|p: Seq<u8>| names(p))
}

/// The path is `base` or below it: its components begin with those of `base`.
pub open spec fn within(path: Seq<u8>, base: Seq<u8>) -> bool {
    components(base).is_prefix_of(components(path))
}

/// The contents of a list of byte strings.
pub open spec fn byte_strings(list: Seq<Vec<u8>>) -> Seq<Seq<u8>> {
    Seq::new(list.len(), |i: int| list[i]@)
}

fn is_name(piece: &Vec<u8>) -> (r: bool)
    ensures
        r == names(piece@),
{
    if piece.len() == 0 {
        return false;
    }
    if piece.len() == 1 && piece[0] == 46u8 {
        assert(piece@ == seq![46u8]);
        return false;
    }
    true
}

fn components_of(path: &[u8]) -> (r: Vec<Vec<u8>>)
    ensures
        byte_strings(r@) == components(path@),
{
    let n = path.len();
    let mut out: Vec<Vec<u8>> = Vec::new();
    if n > 0 && path[0] == 47u8 {
        let mut root: Vec<u8> = Vec::new();
        root.push(47u8);
        assert(root@ == seq![47u8]);
        out.push(root);
    } else if n > 0 && path[0] == 46u8 && (n == 1 || path[1] == 47u8) {
        let mut dot: Vec<u8> = Vec::new();
        dot.push(46u8);
        assert(dot@ == seq![46u8]);
        out.push(dot);
    }
    assert(byte_strings(out@) == start(path@));
    let ghost keep = |p: Seq<u8>| names(p);
    let mut current: Vec<u8> = Vec::new();
    let mut i: usize = 0;
    let ghost mut done: Seq<Seq<u8>> = Seq::empty();
    proof {
        reveal(Seq::filter);
        assert(path@.take(0).len() == 0);
        assert(pieces(path@.take(0)) == done.push(current@));
        assert(start(path@) + done.filter(keep) == start(path@));
    }
    while i < n
        invariant
            i <= n,
            n == path@.len(),
            keep == (|p: Seq<u8>| names(p)),
            pieces(path@.take(i as int)) == done.push(current@),
            byte_strings(out@) == start(path@) + done.filter(keep),
        decreases n - i,
    {
        let b = path[i];
        proof {
            let upto = path@.take(i + 1);
            assert(upto.drop_last() == path@.take(i as int));
            assert(upto.last() == b);
            assert(done.push(current@).drop_last() == done);
        }
        if b == 47u8 {
            let ghost piece = current@;
            let ghost before = byte_strings(out@);
            proof {
                reveal(Seq::filter);
                assert(done.push(piece).drop_last() == done);
                assert(done.push(piece).last() == piece);
            }
            if is_name(&current) {
                out.push(current);
                assert(byte_strings(out@) == before.push(piece));
                assert(start(path@) + done.filter(keep).push(piece) == before.push(piece));
            }
            current = Vec::new();
            proof {
                done = done.push(piece);
                assert(current@ == Seq::<u8>::empty());
            }
        } else {
            current.push(b);
        }
        i = i + 1;
    }
    assert(path@.take(i as int) == path@);
    let ghost piece = current@;
    let ghost before = byte_strings(out@);
    proof {
        reveal(Seq::filter);
        assert(done.push(piece).drop_last() == done);
        assert(done.push(piece).last() == piece);
    }
    if is_name(&current) {
        out.push(current);
        assert(byte_strings(out@) == before.push(piece));
        assert(start(path@) + done.filter(keep).push(piece) == before.push(piece));
    }
    out
}

fn same_bytes(a: &Vec<u8>, b: &Vec<u8>) -> (r: bool)
    ensures
        r == (a@ == b@),
{
    if a.len() != b.len() {
        return false;
    }
    let mut i: usize = 0;
    while i < a.len()
        invariant
            i <= a@.len(),
            a@.len() == b@.len(),
            forall|k: int| 0 <= k < i ==> a@[k] == b@[k],
        decreases a@.len() - i,
    {
        if a[i] != b[i] {
            return false;
        }
        i = i + 1;
    }
    assert(a@ == b@);
    true
}

/// Whether a path is `base` or below it, component by component.
pub fn is_within(path: &[u8], base: &[u8]) -> (r: bool)
    ensures
        r == within(path@, base@),
{
    let p = components_of(path);
    let b = components_of(base);
    let ghost pv = byte_strings(p@);
    let ghost bv = byte_strings(b@);
    if b.len() > p.len() {
        return false;
    }
    let mut i: usize = 0;
    while i < b.len()
        invariant
            i <= b@.len() <= p@.len(),
            pv == byte_strings(p@),
            bv == byte_strings(b@),
            pv == components(path@),
            bv == components(base@),
            forall|k: int| 0 <= k < i ==> pv[k] == bv[k],
        decreases b@.len() - i,
    {
        if !same_bytes(&p[i], &b[i]) {
            assert(pv[i as int] != bv[i as int]);
            assert(pv.subrange(0, bv.len() as int)[i as int] == pv[i as int]);
            return false;
        }
        assert(pv[i as int] == bv[i as int]);
        i = i + 1;
    }
    assert(pv.subrange(0, bv.len() as int) == bv);
    true
}

// ---- Laws --------------------------------------------------------------------------------------

/// An absolute path is resolved to itself, wherever the working directory is.
pub proof fn law_absolute_unchanged(path: Seq<char>, cwd: Seq<char>, home: Option<Seq<char>>)
    requires
        path.len() > 0,
        path[0] == '/',
    ensures
        resolved(path, cwd, home) == Ok::<Seq<char>, PathError>(path),
{
    reveal_strlit("~");
    reveal_strlit("~/");
    assert("~"@[0] == '~' && "~/"@[0] == '~');
}

/// A path that starts from the home directory does not depend on the working directory.
pub proof fn law_home_paths_ignore_cwd(
    path: Seq<char>,
    cwd: Seq<char>,
    other: Seq<char>,
    home: Option<Seq<char>>,
)
    requires
        from_home(path),
    ensures
        resolved(path, cwd, home) == resolved(path, other, home),
        resolved(path, cwd, home) is Ok <==> home is Some,
{
}

/// Any other path is below the working directory, whether there is a home directory or not.
pub proof fn law_relative_paths_follow_cwd(
    path: Seq<char>,
    cwd: Seq<char>,
    home: Option<Seq<char>>,
)
    requires
        !from_home(path),
        path.len() == 0 || path[0] != '/',
    ensures
        resolved(path, cwd, home) is Ok,
        cwd.is_prefix_of(resolved(path, cwd, home)->Ok_0),
{
    let r = resolved(path, cwd, home)->Ok_0;
    assert(r.subrange(0, cwd.len() as int) == cwd);
}

/// Every path is within itself and within the root when it is absolute.
pub proof fn law_within_reflexive(path: Seq<u8>)
    ensures
        within(path, path),
        path.len() > 0 && path[0] == 47u8 ==> within(path, seq![47u8]),
{
    let root = seq![47u8];
    reveal_with_fuel(pieces, 2);
    reveal_with_fuel(Seq::filter, 3);
    assert(root.drop_last() == Seq::<u8>::empty());
    let none = Seq::<u8>::empty();
    assert(pieces(root) == seq![none, none]);
    let keep = |p: Seq<u8>| names(p);
    assert(seq![none, none].drop_last() == seq![none]);
    assert(seq![none].drop_last() == Seq::<Seq<u8>>::empty());
    assert(seq![none, none].filter(keep) == Seq::<Seq<u8>>::empty());
    assert(components(root) == seq![seq![47u8]]);
    if path.len() > 0 && path[0] == 47u8 {
        assert(components(path).subrange(0, 1) == seq![seq![47u8]]);
    }
    assert(components(path).subrange(0, components(path).len() as int) == components(path));
}

/// What is within a directory is within every directory above it.
pub proof fn law_within_transitive(path: Seq<u8>, middle: Seq<u8>, base: Seq<u8>)
    requires
        within(path, middle),
        within(middle, base),
    ensures
        within(path, base),
{
    let p = components(path);
    let m = components(middle);
    let b = components(base);
    assert(b =~= p.subrange(0, b.len() as int)) by {
        assert forall|i: int| 0 <= i < b.len() implies b[i] == p[i] by {
            assert(b[i] == m.subrange(0, b.len() as int)[i]);
            assert(m[i] == p.subrange(0, m.len() as int)[i]);
        }
    }
}

/// A relative path goes on from the working directory, with one slash between them; a path from the
/// home directory goes on from there.
pub proof fn law_paths_go_on_from_a_directory(
    rest: Seq<char>,
    cwd: Seq<char>,
    home: Option<Seq<char>>,
    h: Seq<char>,
)
    requires
        rest.len() == 0 || rest[0] != '/',
        cwd.len() > 0,
        h.len() > 0,
    ensures
        !from_home(rest) && cwd.last() != '/' ==> resolved(rest, cwd, home) == Ok::<
            Seq<char>,
            PathError,
        >(cwd + "/"@ + rest),
        !from_home(rest) && cwd.last() == '/' ==> resolved(rest, cwd, home) == Ok::<
            Seq<char>,
            PathError,
        >(cwd + rest),
        h.last() != '/' ==> resolved("~/"@ + rest, cwd, Some(h)) == Ok::<Seq<char>, PathError>(
            h + "/"@ + rest,
        ),
        h.last() == '/' ==> resolved("~/"@ + rest, cwd, Some(h)) == Ok::<Seq<char>, PathError>(
            h + rest,
        ),
        resolved("~"@, cwd, Some(h)) == Ok::<Seq<char>, PathError>(h),
        resolved("~"@, cwd, None) == Err::<Seq<char>, PathError>(PathError::HomeNotSet),
        resolved("~/"@ + rest, cwd, None) == Err::<Seq<char>, PathError>(PathError::HomeNotSet),
{
    reveal_strlit("/");
    reveal_strlit("~");
    reveal_strlit("~/");
    assert("/"@ == seq!['/']);
    assert("~"@.len() == 1 && "~/"@.len() == 2);
    let path = "~/"@ + rest;
    assert(path.subrange(0, 2) == "~/"@);
    assert(path.skip(2) == rest);
}

/// Only `~` alone and what begins with `~/` start from the home directory.
pub proof fn law_tilde_means_home(path: Seq<char>)
    ensures
        from_home(path) <==> path.len() > 0 && path[0] == '~' && (path.len() == 1 || path[1]
            == '/'),
{
    reveal_strlit("~");
    reveal_strlit("~/");
    assert("~"@.len() == 1 && "~"@[0] == '~');
    assert("~/"@.len() == 2 && "~/"@[0] == '~' && "~/"@[1] == '/');
    if path.len() == 1 && path[0] == '~' {
        assert(path == "~"@);
    }
    if path.len() > 1 && path[0] == '~' && path[1] == '/' {
        assert(path.subrange(0, 2) == "~/"@);
    }
    if "~/"@.is_prefix_of(path) {
        assert(path.subrange(0, 2)[0] == path[0] && path.subrange(0, 2)[1] == path[1]);
    }
}

/// A setting that names a file means the home directory by `~/` where that is known; any other is
/// taken as it stands.
pub proof fn law_settings_expand_home(rest: Seq<char>, h: Seq<char>, other: Seq<char>)
    requires
        rest.len() == 0 || rest[0] != '/',
        h.len() > 0,
        h.last() != '/',
        !"~/"@.is_prefix_of(other),
    ensures
        expanded("~/"@ + rest, Some(h)) == h + "/"@ + rest,
        expanded("~/"@ + rest, None) == "~/"@ + rest,
        expanded(other, Some(h)) == other,
        expanded(other, None) == other,
{
    reveal_strlit("/");
    reveal_strlit("~/");
    assert("/"@ == seq!['/']);
    assert("~/"@.len() == 2);
    let path = "~/"@ + rest;
    assert(path.subrange(0, 2) == "~/"@);
    assert(path.skip(2) == rest);
}

/// The program keeps its own files in `.config/kaku` below the home directory, or below the current
/// one where there is no home.
pub proof fn law_own_files_are_below_home(h: Seq<char>)
    requires
        h.len() > 0,
        h.last() != '/',
    ensures
        config_dir(Some(h)) == h + "/.config/kaku"@,
        config_dir(None) == "./.config/kaku"@,
        joined_path(config_dir(Some(h)), "ai_chat_memory.md"@) == h
            + "/.config/kaku/ai_chat_memory.md"@,
{
    reveal_strlit(".");
    reveal_strlit(".config");
    reveal_strlit("kaku");
    reveal_strlit("/.config/kaku");
    reveal_strlit("./.config/kaku");
    reveal_strlit("ai_chat_memory.md");
    reveal_strlit("/.config/kaku/ai_chat_memory.md");
    assert(config_dir(Some(h)) =~= h + "/.config/kaku"@);
    assert(config_dir(None) =~= "./.config/kaku"@);
    assert(config_dir(Some(h)).last() == 'u');
    assert(joined_path(config_dir(Some(h)), "ai_chat_memory.md"@) =~= h
        + "/.config/kaku/ai_chat_memory.md"@);
}

proof fn lemma_pieces_join(a: Seq<u8>, b: Seq<u8>)
    ensures
        pieces(a + (seq![47u8] + b)) == pieces(a) + pieces(b),
        pieces(b).len() > 0,
    decreases b.len(),
{
    let whole = a + (seq![47u8] + b);
    if b.len() == 0 {
        assert(whole.drop_last() =~= a);
        assert(whole.last() == 47u8);
        assert(pieces(a).push(Seq::empty()) =~= pieces(a) + pieces(b));
    } else {
        let front = b.drop_last();
        lemma_pieces_join(a, front);
        assert(whole.drop_last() =~= a + (seq![47u8] + front));
        assert(whole.last() == b.last());
        let before = pieces(a) + pieces(front);
        if b.last() == 47u8 {
            assert(before.push(Seq::empty()) =~= pieces(a) + pieces(b));
        } else {
            assert(before.last() == pieces(front).last());
            assert(before.drop_last() =~= pieces(a) + pieces(front).drop_last());
            assert(before.drop_last().push(before.last().push(b.last())) =~= pieces(a) + pieces(b));
        }
    }
}

proof fn lemma_one_piece(name: Seq<u8>)
    requires
        !name.contains(47u8),
    ensures
        pieces(name) == seq![name],
    decreases name.len(),
{
    if name.len() > 0 {
        let front = name.drop_last();
        assert(!front.contains(47u8)) by {
            assert forall|i: int| 0 <= i < front.len() implies front[i] != 47u8 by {
                assert(name.contains(name[i]));
            }
        }
        lemma_one_piece(front);
        assert(name.contains(name.last()));
        assert(front.push(name.last()) =~= name);
        assert(seq![front].drop_last().push(seq![front].last().push(name.last())) =~= seq![name]);
    } else {
        assert(name =~= Seq::empty());
    }
}

proof fn lemma_components_join(a: Seq<u8>, b: Seq<u8>)
    requires
        a.len() > 0,
    ensures
        components(a + (seq![47u8] + b)) == components(a) + pieces(b).filter(
            |p: Seq<u8>| names(p),
        ),
{
    let keep = |p: Seq<u8>| names(p);
    let whole = a + (seq![47u8] + b);
    lemma_pieces_join(a, b);
    Seq::filter_distributes_over_add(pieces(a), pieces(b), keep);
    assert(whole[0] == a[0]);
    assert(a.len() > 1 ==> whole[1] == a[1]);
    assert(a.len() == 1 ==> whole[1] == 47u8);
    assert(start(whole) =~= start(a));
    assert(components(whole) =~= components(a) + pieces(b).filter(keep));
}

/// Whatever is below a directory is within it.
pub proof fn law_what_is_below_is_within(base: Seq<u8>, rest: Seq<u8>)
    requires
        base.len() > 0,
    ensures
        within(base + (seq![47u8] + rest), base),
{
    lemma_components_join(base, rest);
    let whole = components(base + (seq![47u8] + rest));
    assert(whole.subrange(0, components(base).len() as int) =~= components(base));
}

/// A neighbour of a directory is not within it, nor is anything below the neighbour, however alike
/// their names begin.
pub proof fn law_neighbours_are_outside(
    parent: Seq<u8>,
    name: Seq<u8>,
    other: Seq<u8>,
    rest: Seq<u8>,
)
    requires
        parent.len() > 0,
        name != other,
        !name.contains(47u8),
        !other.contains(47u8),
        name.len() > 0,
        other.len() > 0,
        name != seq![46u8],
        other != seq![46u8],
    ensures
        ({
            let base = parent + (seq![47u8] + name);
            let neighbour = parent + (seq![47u8] + other);
            &&& !within(neighbour, base)
            &&& !within(neighbour + (seq![47u8] + rest), base)
            &&& !within(parent, base)
        }),
{
    let keep = |p: Seq<u8>| names(p);
    let base = parent + (seq![47u8] + name);
    let neighbour = parent + (seq![47u8] + other);
    lemma_components_join(parent, name);
    lemma_components_join(parent, other);
    lemma_components_join(neighbour, rest);
    lemma_one_piece(name);
    lemma_one_piece(other);
    assert(seq![name].filter(keep) =~= seq![name] && seq![other].filter(keep) =~= seq![other]) by {
        reveal(Seq::filter);
        assert(seq![name].drop_last() =~= Seq::<Seq<u8>>::empty());
        assert(seq![other].drop_last() =~= Seq::<Seq<u8>>::empty());
        assert(Seq::<Seq<u8>>::empty().filter(keep) =~= Seq::<Seq<u8>>::empty());
    }
    let n = components(parent).len() as int;
    assert(components(base)[n] == name);
    assert(components(neighbour)[n] == other);
    let further = components(neighbour + (seq![47u8] + rest));
    assert(further[n] == other);
    if within(neighbour, base) {
        assert(components(neighbour).subrange(0, n + 1)[n] == components(neighbour)[n]);
    }
    if within(neighbour + (seq![47u8] + rest), base) {
        assert(further.subrange(0, n + 1)[n] == further[n]);
    }
}

/// A path that was found is seen as its text, and one that was not as why.
pub proof fn law_paths_are_seen_whole(path: String, e: PathError)
    ensures
        path_view(Ok(path)) == Ok::<Seq<char>, PathError>(path@),
        path_view(Err(e)) == Err::<Seq<char>, PathError>(e),
{
}

} // verus!

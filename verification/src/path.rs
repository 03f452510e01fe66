//! Unix paths held as text.
//!
//! A path is read the way std's `Path::components` reads it on Unix: an
//! optional root, an optional leading `.`, then the pieces between `/`
//! separators, with empty pieces and inner `.` pieces dropped.  Paths that
//! this module computes have the text that std's `strip_prefix`, `join` and
//! `set_extension` give them.
use vstd::prelude::*;
use vstd::string::StringExecFns;

use crate::text::{ascii_lower, chars_equal, chars_of, lower_text, string_of, sub_chars};

verus! {

/// One component of a path.
pub enum Part {
    Root,
    Here,
    Up,
    Name(Seq<char>),
}

/// What has been read of a path so far: the finished components, the piece
/// after the last separator, and whether a separator was seen.
pub struct Scan {
    pub parts: Seq<Part>,
    pub piece: Seq<char>,
    pub seen_slash: bool,
}

/// The component that a finished piece adds, if any.
pub open spec fn flush(parts: Seq<Part>, piece: Seq<char>, first: bool) -> Seq<Part> {
    if piece.len() == 0 {
        parts
    } else if piece == seq!['.'] {
        if first {
            parts.push(Part::Here)
        } else {
            parts
        }
    } else if piece == seq!['.', '.'] {
        parts.push(Part::Up)
    } else {
        parts.push(Part::Name(piece))
    }
}

/// Reading a path from left to right.
pub open spec fn scan(s: Seq<char>) -> Scan
    decreases s.len(),
{
    if s.len() == 0 {
        Scan { parts: seq![], piece: seq![], seen_slash: false }
    } else {
        let prev = scan(s.drop_last());
        if s.last() == '/' {
            Scan {
                parts: if !prev.seen_slash && prev.piece.len() == 0 {
                    seq![Part::Root]
                } else {
                    flush(prev.parts, prev.piece, !prev.seen_slash)
                },
                piece: seq![],
                seen_slash: true,
            }
        } else {
            Scan { parts: prev.parts, piece: prev.piece.push(s.last()), seen_slash: prev.seen_slash }
        }
    }
}

/// The components of the path `s`.
pub open spec fn components(s: Seq<char>) -> Seq<Part> {
    let st = scan(s);
    flush(st.parts, st.piece, !st.seen_slash)
}

/// Index of the last `c` in `s`, or -1.
pub open spec fn last_index_of(s: Seq<char>, c: char) -> int
    decreases s.len(),
{
    if s.len() == 0 {
        -1
    } else if s.last() == c {
        s.len() - 1
    } else {
        last_index_of(s.drop_last(), c)
    }
}

/// The extension of a file name: what follows its last `.`, unless that
/// `.` is the name's first character or there is none.
pub open spec fn name_extension(n: Seq<char>) -> Option<Seq<char>> {
    let k = last_index_of(n, '.');
    if k > 0 {
        Some(n.skip(k + 1))
    } else {
        None
    }
}

/// The stem of a file name: the name without its extension and its dot.
pub open spec fn name_stem(n: Seq<char>) -> Seq<char> {
    let k = last_index_of(n, '.');
    if k > 0 {
        n.take(k)
    } else {
        n
    }
}

/// The file name of a path: its last component, when that is a name.
pub open spec fn file_name(ps: Seq<Part>) -> Option<Seq<char>> {
    if ps.len() > 0 && ps.last() is Name {
        Some(ps.last()->Name_0)
    } else {
        None
    }
}

/// The extension of the path `s` (std's `Path::extension`).
pub open spec fn path_extension(s: Seq<char>) -> Option<Seq<char>> {
    match file_name(components(s)) {
        Some(n) => name_extension(n),
        None => None,
    }
}

/// `base` is a leading part of `path`, component by component.
pub open spec fn is_prefix_parts(base: Seq<Part>, path: Seq<Part>) -> bool {
    base.len() <= path.len() && path.take(base.len() as int) == base
}

/// A path component as the program holds it.
pub enum PathPart {
    Root,
    Here,
    Up,
    Name(Vec<char>),
}

impl View for PathPart {
    type V = Part;

    open spec fn view(&self) -> Part {
        match self {
            PathPart::Root => Part::Root,
            PathPart::Here => Part::Here,
            PathPart::Up => Part::Up,
            PathPart::Name(n) => Part::Name(n@),
        }
    }
}

pub open spec fn view_parts(v: Seq<PathPart>) -> Seq<Part> {
    v.map_values(|p: PathPart| p@)
}

proof fn lemma_view_parts_push(v: Seq<PathPart>, p: PathPart)
    ensures
        view_parts(v.push(p)) == view_parts(v).push(p@),
{
    assert(view_parts(v.push(p)) =~= view_parts(v).push(p@));
}

fn is_single_dot(piece: &Vec<char>) -> (r: bool)
    ensures
        r == (piece@ == seq!['.']),
{
    if piece.len() == 1 && piece[0] == '.' {
        assert(piece@ =~= seq!['.']);
        true
    } else {
        false
    }
}

fn is_double_dot(piece: &Vec<char>) -> (r: bool)
    ensures
        r == (piece@ == seq!['.', '.']),
{
    if piece.len() == 2 && piece[0] == '.' && piece[1] == '.' {
        assert(piece@ =~= seq!['.', '.']);
        true
    } else {
        false
    }
}

fn flush_piece(parts: &mut Vec<PathPart>, piece: Vec<char>, first: bool)
    ensures
        view_parts(final(parts)@) == flush(view_parts(old(parts)@), piece@, first),
{
    proof {
        lemma_view_parts_push(parts@, PathPart::Here);
        lemma_view_parts_push(parts@, PathPart::Up);
    }
    if piece.len() == 0 {
    } else if is_single_dot(&piece) {
        if first {
            parts.push(PathPart::Here);
        }
    } else if is_double_dot(&piece) {
        parts.push(PathPart::Up);
    } else {
        proof {
            lemma_view_parts_push(parts@, PathPart::Name(piece));
        }
        parts.push(PathPart::Name(piece));
    }
}

/// The components of `s` (std's `Path::components` on Unix).
pub fn path_components(s: &str) -> (r: Vec<PathPart>)
    ensures
        view_parts(r@) == components(s@),
{
    let cs = chars_of(s);
    let mut parts: Vec<PathPart> = Vec::new();
    let mut piece: Vec<char> = Vec::new();
    let mut seen_slash = false;
    let mut i: usize = 0;
    assert(cs@.take(0) =~= Seq::<char>::empty());
    assert(view_parts(parts@) =~= Seq::<Part>::empty());
    while i < cs.len()
        invariant
            i <= cs.len(),
            cs@ == s@,
            view_parts(parts@) == scan(cs@.take(i as int)).parts,
            piece@ == scan(cs@.take(i as int)).piece,
            seen_slash == scan(cs@.take(i as int)).seen_slash,
        decreases cs.len() - i,
    {
        let c = cs[i];
        assert(cs@.take(i + 1).drop_last() =~= cs@.take(i as int));
        assert(cs@.take(i + 1).last() == c);
        if c == '/' {
            if !seen_slash && piece.len() == 0 {
                parts = Vec::new();
                proof {
                    lemma_view_parts_push(parts@, PathPart::Root);
                    assert(view_parts(parts@) =~= Seq::<Part>::empty());
                }
                parts.push(PathPart::Root);
            } else {
                let p = piece;
                flush_piece(&mut parts, p, !seen_slash);
            }
            piece = Vec::new();
            seen_slash = true;
        } else {
            piece.push(c);
        }
        i = i + 1;
    }
    assert(cs@.take(cs.len() as int) =~= cs@);
    flush_piece(&mut parts, piece, !seen_slash);
    parts
}


/// `dir` with `name` appended (std's `PathBuf::push`): a `/` goes between
/// them unless `dir` is empty or already ends in one; a `name` that starts
/// at the root replaces `dir`.
pub open spec fn pushed(dir: Seq<char>, name: Seq<char>) -> Seq<char> {
    if name.len() > 0 && name[0] == '/' {
        name
    } else if dir.len() > 0 && dir.last() != '/' {
        dir + seq!['/'] + name
    } else {
        dir + name
    }
}

/// `dir` joined with `name`, as std's `Path::join` writes it.
pub fn push_name(dir: &str, name: &str) -> (r: String)
    ensures
        r@ == pushed(dir@, name@),
{
    let ns = chars_of(name);
    if ns.len() > 0 && ns[0] == '/' {
        return String::from_str(name);
    }
    let mut r = String::from_str(dir);
    let cs = chars_of(dir);
    if cs.len() > 0 && cs[cs.len() - 1] != '/' {
        r.append("/");
        proof { reveal_strlit("/"); }
    }
    r.append(name);
    r
}

/// Where the last `c` of `v` stands, if any.
pub fn last_index(v: &Vec<char>, c: char) -> (r: Option<usize>)
    ensures
        match r {
            Some(k) => last_index_of(v@, c) == k && k < v.len(),
            None => last_index_of(v@, c) == -1,
        },
{
    let mut j: usize = v.len();
    assert(v@.take(j as int) =~= v@);
    while j > 0
        invariant
            j <= v.len(),
            last_index_of(v@, c) == last_index_of(v@.take(j as int), c),
        decreases j,
    {
        assert(v@.take(j as int).drop_last() =~= v@.take(j - 1));
        if v[j - 1] == c {
            return Some(j - 1);
        }
        j = j - 1;
    }
    None
}

/// The extension of the file name `n`.
pub fn extension_of_name(n: &Vec<char>) -> (r: Option<Vec<char>>)
    ensures
        match r {
            Some(e) => name_extension(n@) == Some(e@),
            None => name_extension(n@) is None,
        },
{
    match last_index(n, '.') {
        Some(k) => {
            if k > 0 {
                let e = sub_chars(n, k + 1, n.len());
                assert(e@ =~= n@.skip(k + 1));
                Some(e)
            } else {
                None
            }
        },
        None => None,
    }
}

/// The stem of the file name `n`.
pub fn stem_of_name(n: &Vec<char>) -> (r: Vec<char>)
    ensures
        r@ == name_stem(n@),
{
    match last_index(n, '.') {
        Some(k) => {
            if k > 0 {
                let s = sub_chars(n, 0, k);
                assert(s@ =~= n@.take(k as int));
                s
            } else {
                sub_chars(n, 0, n.len())
            }
        },
        None => {
            let s = sub_chars(n, 0, n.len());
            assert(s@ =~= n@);
            s
        },
    }
}

/// The extension of the path `path` (std's `Path::extension`).
pub fn extension(path: &str) -> (r: Option<Vec<char>>)
    ensures
        match r {
            Some(e) => path_extension(path@) == Some(e@),
            None => path_extension(path@) is None,
        },
{
    let parts = path_components(path);
    let ghost vp = view_parts(parts@);
    if parts.len() == 0 {
        return None;
    }
    assert(vp.last() == parts@.last()@);
    match &parts[parts.len() - 1] {
        PathPart::Name(n) => extension_of_name(n),
        _ => None,
    }
}

/// The extensions of the audio files that a batch picks up.
pub open spec fn is_supported_extension(e: Seq<char>) -> bool {
    let l = lower_text(e);
    ||| l == seq!['w', 'a', 'v']
    ||| l == seq!['m', 'p', '3']
    ||| l == seq!['m', '4', 'a']
    ||| l == seq!['a', 'a', 'c']
    ||| l == seq!['m', 'p', '4']
    ||| l == seq!['m', 'o', 'v']
    ||| l == seq!['o', 'g', 'g']
    ||| l == seq!['f', 'l', 'a', 'c']
}

/// A path names a supported audio file when its extension, in ASCII lower
/// case, is one of wav, mp3, m4a, aac, mp4, mov, ogg and flac.
pub open spec fn is_supported_audio_path(path: Seq<char>) -> bool {
    match path_extension(path) {
        Some(e) => is_supported_extension(e),
        None => false,
    }
}

/// Whether `path` names an audio file of a supported kind, by its
/// extension and regardless of the extension's ASCII case.
pub fn is_supported_audio_file(path: &str) -> (r: bool)
    ensures
        r == is_supported_audio_path(path@),
{
    match extension(path) {
        None => false,
        Some(e) => {
            let l = ascii_lower(&e);
            chars_equal(&l, &['w', 'a', 'v']) || chars_equal(&l, &['m', 'p', '3'])
                || chars_equal(&l, &['m', '4', 'a']) || chars_equal(&l, &['a', 'a', 'c'])
                || chars_equal(&l, &['m', 'p', '4']) || chars_equal(&l, &['m', 'o', 'v'])
                || chars_equal(&l, &['o', 'g', 'g']) || chars_equal(&l, &['f', 'l', 'a', 'c'])
        },
    }
}


fn parts_equal(a: &PathPart, b: &PathPart) -> (r: bool)
    ensures
        r == (a@ == b@),
{
    match (a, b) {
        (PathPart::Root, PathPart::Root) => true,
        (PathPart::Here, PathPart::Here) => true,
        (PathPart::Up, PathPart::Up) => true,
        (PathPart::Name(x), PathPart::Name(y)) => {
            let r = chars_equal(x, y.as_slice());
            r
        },
        _ => false,
    }
}

/// Whether the components `base` lead the components `path`.
fn starts_with_parts(base: &Vec<PathPart>, path: &Vec<PathPart>) -> (r: bool)
    ensures
        r == is_prefix_parts(view_parts(base@), view_parts(path@)),
{
    let ghost vb = view_parts(base@);
    let ghost vp = view_parts(path@);
    if base.len() > path.len() {
        return false;
    }
    let mut i: usize = 0;
    while i < base.len()
        invariant
            i <= base.len() <= path.len(),
            vb == view_parts(base@),
            vp == view_parts(path@),
            vp.take(i as int) == vb.take(i as int),
        decreases base.len() - i,
    {
        if !parts_equal(&base[i], &path[i]) {
            assert(vp.take(vb.len() as int)[i as int] != vb[i as int]);
            return false;
        }
        i = i + 1;
        assert(vp.take(i as int) =~= vb.take(i as int));
    }
    assert(vb.take(vb.len() as int) =~= vb);
    true
}

/// Index of the first `/` of `s` at `pos` or after, or the length of `s`.
pub open spec fn next_sep(s: Seq<char>, pos: int) -> int
    decreases s.len() - pos,
{
    if pos >= s.len() {
        s.len() as int
    } else if s[pos] == '/' {
        pos
    } else {
        next_sep(s, pos + 1)
    }
}

pub proof fn lemma_next_sep(s: Seq<char>, pos: int)
    requires
        0 <= pos <= s.len(),
    ensures
        pos <= next_sep(s, pos) <= s.len(),
        next_sep(s, pos) < s.len() ==> s[next_sep(s, pos)] == '/',
    decreases s.len() - pos,
{
    if pos < s.len() && s[pos] != '/' {
        lemma_next_sep(s, pos + 1);
    }
}

/// The piece of `s` that starts at `pos`, up to the next `/`.
pub open spec fn piece_at(s: Seq<char>, pos: int) -> Seq<char> {
    s.subrange(pos, next_sep(s, pos))
}

/// Where the piece that starts at `pos` ends, with its `/` if it has one.
pub open spec fn after_piece(s: Seq<char>, pos: int) -> int {
    if next_sep(s, pos) < s.len() {
        next_sep(s, pos) + 1
    } else {
        s.len() as int
    }
}

/// A piece that is no component: an empty one, or `.` inside a path.
pub open spec fn is_skipped(p: Seq<char>) -> bool {
    p.len() == 0 || p == seq!['.']
}

/// The path starts at the root.
pub open spec fn has_root(s: Seq<char>) -> bool {
    s.len() > 0 && s[0] == '/'
}

/// The path starts with a `.` component.
pub open spec fn has_cur_dir(s: Seq<char>) -> bool {
    !has_root(s) && s.len() > 0 && s[0] == '.' && (s.len() == 1 || s[1] == '/')
}

/// How many characters the leading root or `.` takes.
pub open spec fn start_len(s: Seq<char>) -> int {
    if has_root(s) || has_cur_dir(s) {
        1
    } else {
        0
    }
}

/// Where reading stands after `k` more components from `pos` on, reading
/// as std's `Components::next` does.
pub open spec fn body_end(s: Seq<char>, pos: int, k: nat) -> int
    decreases s.len() - pos,
{
    if k == 0 || pos < 0 || pos >= s.len() {
        pos
    } else {
        proof {
            lemma_next_sep(s, pos);
        }
        if is_skipped(piece_at(s, pos)) {
            body_end(s, after_piece(s, pos), k)
        } else {
            body_end(s, after_piece(s, pos), (k - 1) as nat)
        }
    }
}

/// Where reading stands after the first `k` components of `s`.
pub open spec fn front_end(s: Seq<char>, k: nat) -> int {
    if k == 0 {
        0
    } else if start_len(s) == 1 {
        body_end(s, 1, (k - 1) as nat)
    } else {
        body_end(s, 0, k)
    }
}

/// `pos` moved past the pieces that are no component.
pub open spec fn skip_start(s: Seq<char>, pos: int) -> int
    decreases s.len() - pos,
{
    if pos < 0 || pos >= s.len() {
        pos
    } else {
        proof {
            lemma_next_sep(s, pos);
        }
        if is_skipped(piece_at(s, pos)) {
            skip_start(s, after_piece(s, pos))
        } else {
            pos
        }
    }
}

/// Index of the last `/` of `s[floor..end]`, or `floor - 1`.
pub open spec fn last_sep(s: Seq<char>, floor: int, end: int) -> int
    decreases end - floor,
{
    if end <= floor {
        floor - 1
    } else if s[end - 1] == '/' {
        end - 1
    } else {
        last_sep(s, floor, end - 1)
    }
}

pub proof fn lemma_last_sep(s: Seq<char>, floor: int, end: int)
    requires
        0 <= floor <= end <= s.len(),
    ensures
        floor - 1 <= last_sep(s, floor, end) < end,
        last_sep(s, floor, end) >= floor ==> s[last_sep(s, floor, end)] == '/',
    decreases end - floor,
{
    if end > floor && s[end - 1] != '/' {
        lemma_last_sep(s, floor, end - 1);
    }
}

/// `end` moved back past the trailing pieces that are no component, not
/// below `floor` (std's `Components::trim_right`).
pub open spec fn trim_end(s: Seq<char>, floor: int, end: int) -> int
    decreases end - floor,
{
    if end <= floor || floor < 0 || end > s.len() {
        end
    } else {
        let i = last_sep(s, floor, end);
        proof {
            lemma_last_sep(s, floor, end);
        }
        if is_skipped(s.subrange(i + 1, end)) {
            trim_end(s, floor, if i >= floor { i } else { floor })
        } else {
            end
        }
    }
}

/// What std's `strip_prefix` leaves of the path `s` once its first `k`
/// components are taken off: the rest of its text, without the pieces
/// that are no component at either end.
pub open spec fn strip_front(s: Seq<char>, k: nat) -> Seq<char> {
    if k == 0 {
        s.take(trim_end(s, start_len(s), s.len() as int))
    } else {
        let lo = skip_start(s, front_end(s, k));
        s.subrange(lo, trim_end(s, lo, s.len() as int))
    }
}

/// Where the file name of the path `t` stands in its text, if it has one
/// (std's `Path::file_name`, read from the back).
pub open spec fn file_name_range(t: Seq<char>) -> Option<(int, int)> {
    let floor = start_len(t);
    let hi = trim_end(t, floor, t.len() as int);
    if hi <= floor {
        None
    } else {
        let lo = last_sep(t, floor, hi) + 1;
        if t.subrange(lo, hi) == seq!['.', '.'] {
            None
        } else {
            Some((lo, hi))
        }
    }
}

/// The text of `t` cut right after the stem of its file name (std's
/// `set_extension("")`); a path without a file name is left as it is.
pub open spec fn without_extension_text(t: Seq<char>) -> Seq<char> {
    match file_name_range(t) {
        None => t,
        Some((lo, hi)) => t.take(lo + name_stem(t.subrange(lo, hi)).len()),
    }
}

/// The bundle directory for `input`, as std's `strip_prefix`, `join` and
/// `set_extension("")` write it: `output_root` joined with the text of
/// `input` after the components of `input_root`, cut after the file stem;
/// `None` when `input` does not lie under `input_root`.
pub open spec fn bundle_dir_path(input_root: Seq<char>, input: Seq<char>, output_root: Seq<char>) -> Option<Seq<char>> {
    let base = components(input_root);
    let p = components(input);
    if is_prefix_parts(base, p) {
        Some(without_extension_text(pushed(output_root, strip_front(input, base.len()))))
    } else {
        None
    }
}

/// The message for an input that does not lie under the input root.
pub open spec fn relative_path_error(input_root: Seq<char>, input: Seq<char>) -> Seq<char> {
    "failed to compute relative path for "@ + input + " under "@ + input_root + ": prefix not found"@
}

fn next_sep_at(s: &Vec<char>, pos: usize) -> (r: usize)
    requires
        pos <= s.len(),
    ensures
        r == next_sep(s@, pos as int),
{
    let mut i = pos;
    while i < s.len() && s[i] != '/'
        invariant
            pos <= i <= s.len(),
            next_sep(s@, pos as int) == next_sep(s@, i as int),
        decreases s.len() - i,
    {
        i = i + 1;
    }
    i
}

fn skipped_piece(s: &Vec<char>, from: usize, to: usize) -> (r: bool)
    requires
        from <= to <= s.len(),
    ensures
        r == is_skipped(s@.subrange(from as int, to as int)),
{
    if to == from {
        return true;
    }
    if to - from == 1 && s[from] == '.' {
        assert(s@.subrange(from as int, to as int) =~= seq!['.']);
        return true;
    }
    assert(s@.subrange(from as int, to as int).len() != 1 ==> s@.subrange(from as int, to as int) != seq!['.']);
    assert(s@.subrange(from as int, to as int).len() == 1 ==> s@.subrange(from as int, to as int)[0] != '.');
    false
}

fn start_len_of(s: &Vec<char>) -> (r: usize)
    ensures
        r == start_len(s@),
{
    if s.len() > 0 && s[0] == '/' {
        1
    } else if s.len() > 0 && s[0] == '.' && (s.len() == 1 || s[1] == '/') {
        1
    } else {
        0
    }
}

fn front_end_of(s: &Vec<char>, k: usize) -> (r: usize)
    ensures
        r == front_end(s@, k as nat),
        r <= s.len(),
{
    if k == 0 {
        return 0;
    }
    let mut pos: usize;
    let mut left: usize;
    if start_len_of(s) == 1 {
        pos = 1;
        left = k - 1;
    } else {
        pos = 0;
        left = k;
    }
    while left > 0 && pos < s.len()
        invariant
            pos <= s.len(),
            front_end(s@, k as nat) == body_end(s@, pos as int, left as nat),
        decreases s.len() - pos,
    {
        let i = next_sep_at(s, pos);
        proof {
            lemma_next_sep(s@, pos as int);
        }
        let skipped = skipped_piece(s, pos, i);
        let next = if i < s.len() { i + 1 } else { s.len() };
        if !skipped {
            left = left - 1;
        }
        pos = next;
    }
    pos
}

fn skip_start_of(s: &Vec<char>, pos: usize) -> (r: usize)
    requires
        pos <= s.len(),
    ensures
        r == skip_start(s@, pos as int),
        pos <= r <= s.len(),
{
    let mut p = pos;
    while p < s.len()
        invariant
            pos <= p <= s.len(),
            skip_start(s@, pos as int) == skip_start(s@, p as int),
        decreases s.len() - p,
    {
        let i = next_sep_at(s, p);
        proof {
            lemma_next_sep(s@, p as int);
        }
        if !skipped_piece(s, p, i) {
            return p;
        }
        p = if i < s.len() { i + 1 } else { s.len() };
    }
    p
}

/// The index of the last `/` in `s[floor..end]`, if any.
fn last_sep_in(s: &Vec<char>, floor: usize, end: usize) -> (r: Option<usize>)
    requires
        floor <= end <= s.len(),
    ensures
        match r {
            Some(i) => last_sep(s@, floor as int, end as int) == i && floor <= i < end,
            None => last_sep(s@, floor as int, end as int) == floor - 1,
        },
{
    let mut e = end;
    while e > floor
        invariant
            floor <= e <= end <= s.len(),
            last_sep(s@, floor as int, end as int) == last_sep(s@, floor as int, e as int),
        decreases e,
    {
        if s[e - 1] == '/' {
            return Some(e - 1);
        }
        e = e - 1;
    }
    None
}

fn trim_end_of(s: &Vec<char>, floor: usize, end: usize) -> (r: usize)
    requires
        floor <= end <= s.len(),
    ensures
        r == trim_end(s@, floor as int, end as int),
        floor <= r <= end,
{
    let mut e = end;
    while e > floor
        invariant
            floor <= e <= end <= s.len(),
            trim_end(s@, floor as int, end as int) == trim_end(s@, floor as int, e as int),
        decreases e,
    {
        let (start, back) = match last_sep_in(s, floor, e) {
            Some(i) => (i + 1, i),
            None => (floor, floor),
        };
        proof {
            lemma_last_sep(s@, floor as int, e as int);
        }
        if !skipped_piece(s, start, e) {
            return e;
        }
        e = back;
    }
    e
}

/// What `strip_prefix` leaves of `s` once its first `k` components are
/// taken off.
fn strip_front_of(s: &Vec<char>, k: usize) -> (r: Vec<char>)
    ensures
        r@ == strip_front(s@, k as nat),
{
    if k == 0 {
        let hi = trim_end_of(s, start_len_of(s), s.len());
        let r = sub_chars(s, 0, hi);
        assert(r@ =~= s@.take(hi as int));
        r
    } else {
        let lo = skip_start_of(s, front_end_of(s, k));
        let hi = trim_end_of(s, lo, s.len());
        sub_chars(s, lo, hi)
    }
}

/// The text of `t` cut right after the stem of its file name.
fn without_extension_of(t: &Vec<char>) -> (r: Vec<char>)
    ensures
        r@ == without_extension_text(t@),
{
    let floor = start_len_of(t);
    let hi = trim_end_of(t, floor, t.len());
    if hi <= floor {
        return sub_chars(t, 0, t.len());
    }
    let lo = match last_sep_in(t, floor, hi) {
        Some(i) => i + 1,
        None => floor,
    };
    proof {
        lemma_last_sep(t@, floor as int, hi as int);
    }
    let name = sub_chars(t, lo, hi);
    if chars_equal(&name, &['.', '.']) {
        let r = sub_chars(t, 0, t.len());
        assert(r@ =~= t@);
        return r;
    }
    let stem = stem_of_name(&name);
    proof {
        lemma_stem_len(name@);
    }
    let r = sub_chars(t, 0, lo + stem.len());
    assert(r@ =~= t@.take(lo + stem@.len()));
    r
}

proof fn lemma_stem_len(n: Seq<char>)
    ensures
        name_stem(n).len() <= n.len(),
{
    lemma_last_index_bound(n, '.');
}

proof fn lemma_last_index_bound(s: Seq<char>, c: char)
    ensures
        -1 <= last_index_of(s, c) < s.len(),
    decreases s.len(),
{
    if s.len() > 0 && s.last() != c {
        lemma_last_index_bound(s.drop_last(), c);
    }
}

/// Where the bundle of `input` goes: the relative structure under
/// `input_root` is kept under `output_root`, and the file's extension is
/// dropped; the text is the one std's path functions write.
pub fn bundle_dir_for_input(input_root: &str, input: &str, output_root: &str) -> (r: Result<String, String>)
    ensures
        match r {
            Ok(d) => bundle_dir_path(input_root@, input@, output_root@) == Some(d@),
            Err(e) => bundle_dir_path(input_root@, input@, output_root@) is None
                && e@ == relative_path_error(input_root@, input@),
        },
{
    let base = path_components(input_root);
    let p = path_components(input);
    if !starts_with_parts(&base, &p) {
        let mut e = String::from_str("failed to compute relative path for ");
        e.append(input);
        e.append(" under ");
        e.append(input_root);
        e.append(": prefix not found");
        return Err(e);
    }
    proof {
        assert(view_parts(base@).len() == base.len());
    }
    let ics = chars_of(input);
    let rel = strip_front_of(&ics, base.len());
    let rel_text = string_of(&rel);
    let joined = push_name(output_root, rel_text.as_str());
    let jcs = chars_of(joined.as_str());
    let dir = without_extension_of(&jcs);
    Ok(string_of(&dir))
}

} // verus!

verus! {

/// Whether a path names a supported audio file does not depend on the
/// ASCII case of its extension.
pub proof fn lemma_support_ignores_case(p: Seq<char>, q: Seq<char>, e: Seq<char>, f: Seq<char>)
    requires
        path_extension(p) == Some(e),
        path_extension(q) == Some(f),
        lower_text(e) == lower_text(f),
    ensures
        is_supported_audio_path(p) == is_supported_audio_path(q),
{
}

/// A path with an extension names a supported audio file exactly when its
/// extension, in ASCII lower case, is `wav`, `mp3`, `m4a`, `aac`, `mp4`,
/// `mov`, `ogg` or `flac`; a path without one never does.
pub proof fn lemma_supported_extensions(p: Seq<char>)
    ensures
        path_extension(p) is None ==> !is_supported_audio_path(p),
        path_extension(p) matches Some(e) ==> (is_supported_audio_path(p) <==> {
            let l = lower_text(e);
            ||| l == "wav"@
            ||| l == "mp3"@
            ||| l == "m4a"@
            ||| l == "aac"@
            ||| l == "mp4"@
            ||| l == "mov"@
            ||| l == "ogg"@
            ||| l == "flac"@
        }),
{
    reveal_strlit("wav");
    reveal_strlit("mp3");
    reveal_strlit("m4a");
    reveal_strlit("aac");
    reveal_strlit("mp4");
    reveal_strlit("mov");
    reveal_strlit("ogg");
    reveal_strlit("flac");
    assert("wav"@ =~= seq!['w', 'a', 'v']);
    assert("mp3"@ =~= seq!['m', 'p', '3']);
    assert("m4a"@ =~= seq!['m', '4', 'a']);
    assert("aac"@ =~= seq!['a', 'a', 'c']);
    assert("mp4"@ =~= seq!['m', 'p', '4']);
    assert("mov"@ =~= seq!['m', 'o', 'v']);
    assert("ogg"@ =~= seq!['o', 'g', 'g']);
    assert("flac"@ =~= seq!['f', 'l', 'a', 'c']);
}

} // verus!

//! The kinds of machine that the proxy runs on, and how paths are put together there.
use vstd::prelude::*;
use vstd::string::*;

use crate::text::{self, chars_of, join_text, same_text, split_text, text_of};

verus! {

/// An operating system.
#[derive(Debug, Clone, Copy, PartialEq, Eq, Structural)]
pub enum Os {
    Macos,
    Linux,
    Windows,
    Other,
}

/// A processor.
#[derive(Debug, Clone, Copy, PartialEq, Eq, Structural)]
pub enum Arch {
    Aarch64,
    X86_64,
    Other,
}

/// A kind of machine.
#[derive(Debug, Clone, Copy, PartialEq, Eq, Structural)]
pub struct Platform {
    pub os: Os,
    pub arch: Arch,
}

/// The character that parts the components of a path that is put together.
pub open spec fn path_separator(os: Os) -> char {
    if os is Windows {
        '\\'
    } else {
        '/'
    }
}

/// `c` parts components of a path.
pub open spec fn parts_path(os: Os, c: char) -> bool {
    c == '/' || (os is Windows && c == '\\')
}

/// `path` is verbatim: it begins with `\\?\`, and all that follows is taken literally.
pub open spec fn verbatim(os: Os, path: Seq<char>) -> bool {
    &&& os is Windows
    &&& path.len() >= 4
    &&& path[0] == '\\'
    &&& path[1] == '\\'
    &&& path[2] == '?'
    &&& path[3] == '\\'
}

/// A drive letter and its colon stand at `at`.
pub open spec fn drive_at(path: Seq<char>, at: int) -> bool {
    &&& path.len() >= at + 2
    &&& path[at + 1] == ':'
    &&& 'a' <= path[at] <= 'z' || 'A' <= path[at] <= 'Z'
}

/// Where `parts` lead from `from` below a verbatim path, in which every component is taken
/// literally: `.` is left out, and `..` takes a name away.
pub open spec fn walked(from: Seq<Seq<char>>, parts: Seq<Seq<char>>) -> Seq<Seq<char>>
    decreases parts.len(),
{
    if parts.len() == 0 {
        from
    } else {
        let before = walked(from, parts.drop_last());
        if parts.last() == "."@ {
            before
        } else if parts.last() != ".."@ {
            before.push(parts.last())
        } else if before.len() > 0 && before.last() != "."@ && before.last() != ".."@ {
            before.drop_last()
        } else {
            before
        }
    }
}

/// The verbatim path `base` with other components.
pub open spec fn with_components(os: Os, base: Seq<char>, parts: Seq<Seq<char>>) -> Seq<char> {
    let prefix = base.take(prefix_len(os, base));
    if parts.len() == 0 && !slashed(os, base) {
        prefix
    } else {
        prefix.push(path_separator(os)) + text::joined(parts, seq![path_separator(os)])
    }
}

/// The path `base` is followed by a path below it without a separator: it ends in one, or is
/// empty or a drive alone.
pub open spec fn open_ended(os: Os, base: Seq<char>) -> bool {
    let drive = os is Windows && base.len() == 2 && drive_at(base, 0);
    base.len() == 0 || parts_path(os, base.last()) || drive
}

/// The relative path `part` below `base`.
pub open spec fn joined_path(os: Os, base: Seq<char>, part: Seq<char>) -> Seq<char> {
    if verbatim(os, base) && part.len() > 0 {
        with_components(os, base, walked(components(os, base), components(os, part)))
    } else if open_ended(os, base) {
        base + part
    } else {
        base.push(path_separator(os)) + part
    }
}

/// Where `parts` lead from `from` below a verbatim path.
fn walk(from: Vec<String>, parts: &[String]) -> (led: Vec<String>)
    ensures
        text::views(led@) == walked(text::views(from@), text::views(parts@)),
{
    let ghost start = text::views(from@);
    let ghost all = text::views(parts@);
    let mut led = from;
    assert(all.take(0) =~= Seq::empty());
    for i in 0..parts.len()
        invariant
            all == text::views(parts@),
            text::views(led@) == walked(start, all.take(i as int)),
    {
        let ghost before = text::views(led@);
        proof {
            assert(all.take(i + 1).drop_last() =~= all.take(i as int));
            assert(all.take(i + 1).last() == parts@[i as int]@);
        }
        let part = parts[i].as_str();
        if same_text(part, "..") {
            proof {
                reveal_strlit(".");
                reveal_strlit("..");
                assert("."@.len() != ".."@.len());
            }
            if led.len() > 0 {
                assert(before.last() == led@[led@.len() - 1]@);
                let last = led[led.len() - 1].as_str();
                if !same_text(last, ".") && !same_text(last, "..") {
                    led.pop();
                    assert(text::views(led@) =~= before.drop_last());
                }
            }
        } else if !same_text(part, ".") {
            led.push(part.to_owned());
            assert(text::views(led@) =~= before.push(part@));
        }
    }
    assert(all.take(all.len() as int) =~= all);
    led
}

/// The relative path `part` below `base`.
pub fn join_path(os: Os, base: &str, part: &str) -> (path: String)
    ensures
        path@ == joined_path(os, base@, part@),
{
    let chars = chars_of(base);
    if is_verbatim(os, &chars) && part.unicode_len() > 0 {
        let parts = walk(path_components(os, base), path_components(os, part).as_slice());
        let end = prefix_end(os, &chars);
        assert(base@.subrange(0, end as int) =~= base@.take(end as int));
        let mut path = text::part_of(base, 0, end);
        assert(text::views(parts@).len() == parts@.len());
        if parts.len() > 0 || is_slashed(os, &chars) {
            proof {
                reveal_strlit("\\");
                assert("\\"@ =~= seq!['\\']);
            }
            path.push('\\');
            path.append(join_text(parts.as_slice(), "\\").as_str());
        }
        return path;
    }
    let mut path = base.to_owned();
    if chars.len() > 0 {
        let last = chars[chars.len() - 1];
        let drive = matches!(os, Os::Windows) && chars.len() == 2 && is_drive_at(&chars, 0);
        if !is_separator(os, false, last) && !drive {
            path.push(separator(os));
        }
    }
    path.append(part);
    path
}

/// `c` parts components of a path that is verbatim or not.
pub open spec fn parts_components(os: Os, literal: bool, c: char) -> bool {
    if literal {
        c == path_separator(os)
    } else {
        parts_path(os, c)
    }
}

/// Where the component that begins at `from` ends.
pub open spec fn component_end(os: Os, literal: bool, path: Seq<char>, from: int) -> int
    decreases path.len() - from,
{
    if from >= path.len() || parts_components(os, literal, path[from]) {
        from
    } else {
        component_end(os, literal, path, from + 1)
    }
}

/// Where the name of a server and that of a share behind it end, which begin at `from`.
pub open spec fn share_end(os: Os, literal: bool, path: Seq<char>, from: int) -> Option<int> {
    let server = component_end(os, literal, path, from);
    if server == from || server >= path.len() {
        None
    } else {
        let share = component_end(os, literal, path, server + 1);
        if share == server + 1 {
            None
        } else {
            Some(share)
        }
    }
}

/// How long the prefix of a Windows path is: `C:`, `\\server\share`, `\\.\device`, `\\?\C:`,
/// `\\?\UNC\server\share` or `\\?\name`. Other paths have none.
pub open spec fn prefix_len(os: Os, path: Seq<char>) -> int {
    if !(os is Windows) {
        0
    } else if verbatim(os, path) {
        if path.len() >= 8 && path[4] == 'U' && path[5] == 'N' && path[6] == 'C' && path[7]
            == '\\' {
            match share_end(os, true, path, 8) {
                Some(end) => end,
                None => component_end(os, true, path, 8),
            }
        } else {
            component_end(os, true, path, 4)
        }
    } else if path.len() >= 2 && parts_path(os, path[0]) && parts_path(os, path[1]) {
        if path.len() >= 4 && path[2] == '.' && parts_path(os, path[3]) {
            component_end(os, false, path, 4)
        } else {
            match share_end(os, false, path, 2) {
                Some(end) => end,
                None => 0,
            }
        }
    } else if drive_at(path, 0) {
        2
    } else {
        0
    }
}

/// The prefix of a path with one kind of separator, and a drive letter in upper case.
pub open spec fn prefix_of(os: Os, path: Seq<char>) -> Seq<char> {
    let end = prefix_len(os, path);
    let drive = end == 2 || (end == 6 && verbatim(os, path) && drive_at(path, 4));
    Seq::new(
        end as nat,
        |i: int|
            if parts_components(os, verbatim(os, path), path[i]) {
                path_separator(os)
            } else if drive && i == end - 2 && 'a' <= path[i] <= 'z' {
                (path[i] as int - 32) as char
            } else {
                path[i]
            },
    )
}

/// A separator stands behind the prefix.
pub open spec fn slashed(os: Os, path: Seq<char>) -> bool {
    let end = prefix_len(os, path);
    end < path.len() && parts_components(os, verbatim(os, path), path[end])
}

/// The path has a root: a separator, or a share or device that is one by itself.
pub open spec fn rooted(os: Os, path: Seq<char>) -> bool {
    slashed(os, path) || (prefix_len(os, path) > 2 && !verbatim(os, path))
}

/// The path leads to the same place from everywhere: it has a root, and on Windows a prefix too,
/// where any but a drive letter is a root by itself.
pub open spec fn absolute(os: Os, path: Seq<char>) -> bool {
    if os is Windows {
        prefix_len(os, path) > 2 || (prefix_len(os, path) == 2 && slashed(os, path))
    } else {
        slashed(os, path)
    }
}

/// What follows the prefix of a path, with one kind of separator.
pub open spec fn plain_rest(os: Os, path: Seq<char>) -> Seq<char> {
    let end = prefix_len(os, path);
    Seq::new(
        (path.len() - end) as nat,
        |i: int|
            if parts_components(os, verbatim(os, path), path[end + i]) {
                path_separator(os)
            } else {
                path[end + i]
            },
    )
}

/// The pieces between separators that count: not the empty ones, and `.` only at the very
/// beginning or in a verbatim path.
pub open spec fn counted(pieces: Seq<Seq<char>>, literal: bool) -> Seq<Seq<char>>
    decreases pieces.len(),
{
    if pieces.len() == 0 {
        Seq::empty()
    } else {
        let before = counted(pieces.drop_last(), literal);
        if pieces.last().len() == 0 || (pieces.last() == "."@ && pieces.len() > 1 && !literal) {
            before
        } else {
            before.push(pieces.last())
        }
    }
}

/// The components of a path, without its prefix and its root.
pub open spec fn components(os: Os, path: Seq<char>) -> Seq<Seq<char>> {
    counted(text::pieces(plain_rest(os, path), path_separator(os)), verbatim(os, path))
}

/// The pieces between separators that count where others precede them: neither the empty ones nor
/// `.`.
pub open spec fn counted_later(pieces: Seq<Seq<char>>) -> Seq<Seq<char>>
    decreases pieces.len(),
{
    if pieces.len() == 0 {
        Seq::empty()
    } else {
        let before = counted_later(pieces.drop_last());
        if pieces.last().len() == 0 || pieces.last() == "."@ {
            before
        } else {
            before.push(pieces.last())
        }
    }
}

/// The components of what a relative path leads to from `base`.
pub open spec fn components_below(os: Os, base: Seq<char>, part: Seq<char>) -> Seq<Seq<char>> {
    if verbatim(os, base) {
        walked(components(os, base), components(os, part))
    } else if base.len() == 0 || (os is Windows && base.len() == 2 && drive_at(base, 0)) {
        components(os, part)
    } else {
        components(os, base) + counted_later(
            text::pieces(plain_rest(os, part), path_separator(os)),
        )
    }
}

/// Two spellings of one path.
pub open spec fn same_place(os: Os, a: Seq<char>, b: Seq<char>) -> bool {
    &&& verbatim(os, a) == verbatim(os, b)
    &&& prefix_of(os, a) == prefix_of(os, b)
    &&& rooted(os, a) == rooted(os, b)
    &&& components(os, a) == components(os, b)
}

/// The name of the file that a path leads to.
pub open spec fn name_of(os: Os, path: Seq<char>) -> Option<Seq<char>> {
    let parts = components(os, path);
    if parts.len() == 0 || parts.last() == "."@ || parts.last() == ".."@ {
        None
    } else {
        Some(parts.last())
    }
}

/// The last dot of a name that does not begin it.
pub open spec fn last_dot(name: Seq<char>) -> Option<int>
    decreases name.len(),
{
    if name.len() <= 1 {
        None
    } else if name.last() == '.' {
        Some(name.len() - 1)
    } else {
        last_dot(name.drop_last())
    }
}

/// A file's name without its extension.
pub open spec fn stem(name: Seq<char>) -> Seq<char> {
    match last_dot(name) {
        Some(at) => name.take(at),
        None => name,
    }
}

/// The path is a mere name, to be looked up among the commands: it is not absolute, and prefix,
/// root and components come to one at most.
pub open spec fn bare_name(os: Os, path: Seq<char>) -> bool {
    let prefixes: int = if prefix_len(os, path) > 0 {
        1
    } else {
        0
    };
    let roots: int = if rooted(os, path) {
        1
    } else {
        0
    };
    !absolute(os, path) && prefixes + roots + components(os, path).len() <= 1
}

/// Whether `c` parts components of a path that is verbatim or not.
fn is_separator(os: Os, literal: bool, c: char) -> (b: bool)
    ensures
        b == parts_components(os, literal, c),
{
    match os {
        Os::Windows => c == '\\' || (c == '/' && !literal),
        _ => c == '/',
    }
}

/// Where the component that begins at `from` ends.
fn find_component_end(os: Os, literal: bool, chars: &[char], from: usize) -> (end: usize)
    requires
        from <= chars@.len(),
    ensures
        end == component_end(os, literal, chars@, from as int),
        from <= end <= chars@.len(),
{
    let mut at: usize = from;
    while at < chars.len() && !is_separator(os, literal, chars[at])
        invariant
            from <= at <= chars@.len(),
            component_end(os, literal, chars@, from as int) == component_end(
                os,
                literal,
                chars@,
                at as int,
            ),
        decreases chars@.len() - at,
    {
        at = at + 1;
    }
    at
}

/// Where the name of a server and that of a share behind it end.
fn find_share_end(os: Os, literal: bool, chars: &[char], from: usize) -> (end: Option<usize>)
    requires
        from <= chars@.len(),
    ensures
        match end {
            Some(at) => share_end(os, literal, chars@, from as int) == Some(at as int) && from <= at
                <= chars@.len(),
            None => share_end(os, literal, chars@, from as int) is None,
        },
{
    let server = find_component_end(os, literal, chars, from);
    if server == from || server >= chars.len() {
        return None;
    }
    let share = find_component_end(os, literal, chars, server + 1);
    if share == server + 1 {
        None
    } else {
        Some(share)
    }
}

/// Whether a drive letter and its colon stand at `at`.
fn is_drive_at(chars: &[char], at: usize) -> (b: bool)
    requires
        at <= chars@.len(),
    ensures
        b == drive_at(chars@, at as int),
{
    chars.len() - at >= 2 && chars[at + 1] == ':' && (('a' <= chars[at] && chars[at] <= 'z') || (
    'A' <= chars[at] && chars[at] <= 'Z'))
}

/// Whether a path is verbatim.
fn is_verbatim(os: Os, chars: &[char]) -> (b: bool)
    ensures
        b == verbatim(os, chars@),
{
    matches!(os, Os::Windows) && chars.len() >= 4 && chars[0] == '\\' && chars[1] == '\\'
        && chars[2] == '?' && chars[3] == '\\'
}

/// How long the prefix of a path is.
fn prefix_end(os: Os, chars: &[char]) -> (end: usize)
    ensures
        end == prefix_len(os, chars@),
        end <= chars@.len(),
{
    if !matches!(os, Os::Windows) {
        return 0;
    }
    if is_verbatim(os, chars) {
        if chars.len() >= 8 && chars[4] == 'U' && chars[5] == 'N' && chars[6] == 'C' && chars[7]
            == '\\' {
            return match find_share_end(os, true, chars, 8) {
                Some(end) => end,
                None => find_component_end(os, true, chars, 8),
            };
        }
        return find_component_end(os, true, chars, 4);
    }
    if chars.len() >= 2 && is_separator(os, false, chars[0]) && is_separator(os, false, chars[1]) {
        if chars.len() >= 4 && chars[2] == '.' && is_separator(os, false, chars[3]) {
            return find_component_end(os, false, chars, 4);
        }
        return match find_share_end(os, false, chars, 2) {
            Some(end) => end,
            None => 0,
        };
    }
    if is_drive_at(chars, 0) {
        2
    } else {
        0
    }
}

/// Whether the path has a prefix.
pub fn has_prefix(os: Os, path: &str) -> (b: bool)
    ensures
        b == (prefix_len(os, path@) != 0),
{
    prefix_end(os, &chars_of(path)) != 0
}

/// The prefix of a path with one kind of separator, and a drive letter in upper case.
fn plain_prefix(os: Os, path: &str) -> (prefix: String)
    ensures
        prefix@ == prefix_of(os, path@),
{
    let chars = chars_of(path);
    let end = prefix_end(os, &chars);
    let literal = is_verbatim(os, &chars);
    let drive = end == 2 || (end == 6 && literal && is_drive_at(&chars, 4));
    let mut prefix = String::new();
    for i in 0..end
        invariant
            chars@ == path@,
            end == prefix_len(os, path@),
            end <= chars@.len(),
            literal == verbatim(os, path@),
            drive == (end == 2 || (end == 6 && literal && drive_at(path@, 4))),
            prefix@ == prefix_of(os, path@).take(i as int),
    {
        let ghost before = prefix@;
        let c = chars[i];
        if is_separator(os, literal, c) {
            prefix.push(separator(os));
        } else if drive && i == end - 2 && 'a' <= c && c <= 'z' {
            let n: u8 = c as u8;
            prefix.push((n - 32) as char);
        } else {
            prefix.push(c);
        }
        assert(prefix@ =~= prefix_of(os, path@).take(i + 1));
    }
    assert(prefix@ =~= prefix_of(os, path@));
    prefix
}

/// The character that parts the components of a path that is put together.
fn separator(os: Os) -> (c: char)
    ensures
        c == path_separator(os),
{
    match os {
        Os::Windows => '\\',
        _ => '/',
    }
}

/// The components of a path, without its prefix and its root.
pub fn path_components(os: Os, path: &str) -> (parts: Vec<String>)
    ensures
        text::views(parts@) == components(os, path@),
{
    let chars = chars_of(path);
    let end = prefix_end(os, &chars);
    let literal = is_verbatim(os, &chars);
    let mut plain: Vec<char> = Vec::new();
    for i in end..chars.len()
        invariant
            chars@ == path@,
            end == prefix_len(os, path@),
            end <= chars@.len(),
            literal == verbatim(os, path@),
            plain@ == plain_rest(os, path@).take(i - end),
    {
        let c = chars[i];
        plain.push(
            if is_separator(os, literal, c) {
                separator(os)
            } else {
                c
            },
        );
        assert(plain@ =~= plain_rest(os, path@).take(i + 1 - end));
    }
    assert(plain@ =~= plain_rest(os, path@));
    let pieces = split_text(text_of(&plain).as_str(), separator(os));
    let ghost all = text::views(pieces@);
    let mut parts: Vec<String> = Vec::new();
    assert(all.take(0) =~= Seq::empty());
    assert(text::views(parts@) =~= Seq::empty());
    for i in 0..pieces.len()
        invariant
            all == text::views(pieces@),
            text::views(parts@) == counted(all.take(i as int), literal),
    {
        let ghost before = text::views(parts@);
        proof {
            assert(all.take(i + 1).drop_last() =~= all.take(i as int));
            assert(all.take(i + 1).last() == pieces@[i as int]@);
        }
        let piece = pieces[i].as_str();
        if piece.unicode_len() > 0 && !(same_text(piece, ".") && i > 0 && !literal) {
            parts.push(piece.to_owned());
            assert(text::views(parts@) =~= before.push(piece@));
        }
    }
    assert(all.take(all.len() as int) =~= all);
    parts
}

/// Whether a separator stands behind the prefix.
fn is_slashed(os: Os, chars: &[char]) -> (b: bool)
    ensures
        b == slashed(os, chars@),
{
    let end = prefix_end(os, chars);
    let literal = is_verbatim(os, chars);
    end < chars.len() && is_separator(os, literal, chars[end])
}

/// Whether the path has a root.
pub fn has_root(os: Os, path: &str) -> (b: bool)
    ensures
        b == rooted(os, path@),
{
    let chars = chars_of(path);
    is_slashed(os, &chars) || (prefix_end(os, &chars) > 2 && !is_verbatim(os, &chars))
}

/// Whether two lists of texts are the same.
fn same_texts(a: &[String], b: &[String]) -> (same: bool)
    ensures
        same == (text::views(a@) == text::views(b@)),
{
    let ghost x = text::views(a@);
    let ghost y = text::views(b@);
    if a.len() != b.len() {
        assert(x.len() != y.len());
        return false;
    }
    for i in 0..a.len()
        invariant
            a.len() == b.len(),
            x == text::views(a@),
            y == text::views(b@),
            forall|j: int| 0 <= j < i ==> x[j] == y[j],
    {
        if !same_text(a[i].as_str(), b[i].as_str()) {
            assert(x[i as int] != y[i as int]);
            return false;
        }
    }
    assert(x =~= y);
    true
}

/// Whether two texts are spellings of one path.
pub fn same_path(os: Os, a: &str, b: &str) -> (same: bool)
    ensures
        same == same_place(os, a@, b@),
{
    is_verbatim(os, &chars_of(a)) == is_verbatim(os, &chars_of(b)) && same_text(
        plain_prefix(os, a).as_str(),
        plain_prefix(os, b).as_str(),
    ) && has_root(os, a) == has_root(os, b) && same_texts(
        path_components(os, a).as_slice(),
        path_components(os, b).as_slice(),
    )
}

/// The name of the file that a path leads to.
pub fn file_name(os: Os, path: &str) -> (name: Option<String>)
    ensures
        text::string_view(name) == name_of(os, path@),
{
    let parts = path_components(os, path);
    assert(text::views(parts@).len() == parts@.len());
    if parts.len() == 0 {
        return None;
    }
    assert(text::views(parts@).last() == parts@[parts@.len() - 1]@);
    let last = parts[parts.len() - 1].as_str();
    if same_text(last, ".") || same_text(last, "..") {
        None
    } else {
        Some(last.to_owned())
    }
}

/// A file's name without its extension.
pub fn file_stem(name: &str) -> (s: String)
    ensures
        s@ == stem(name@),
{
    let chars = chars_of(name);
    let mut at: usize = chars.len();
    assert(name@.take(at as int) =~= name@);
    while at > 1
        invariant
            at <= chars@.len(),
            chars@ == name@,
            last_dot(name@) == last_dot(name@.take(at as int)),
        decreases at,
    {
        assert(name@.take(at as int).drop_last() =~= name@.take(at - 1));
        if chars[at - 1] == '.' {
            assert(name@.subrange(0, at - 1) =~= name@.take(at - 1));
            return text::part_of(name, 0, at - 1);
        }
        at = at - 1;
    }
    name.to_owned()
}

/// Whether the path is a mere name, to be looked up among the commands.
pub fn is_bare_name(os: Os, path: &str) -> (b: bool)
    ensures
        b == bare_name(os, path@),
{
    let chars = chars_of(path);
    let parts = path_components(os, path);
    assert(text::views(parts@).len() == parts@.len());
    let end = prefix_end(os, &chars);
    let absolute = match os {
        Os::Windows => end > 2 || (end == 2 && is_slashed(os, &chars)),
        _ => is_slashed(os, &chars),
    };
    if absolute {
        return false;
    }
    let prefix = end > 0;
    let root = has_root(os, path);
    if prefix && root {
        false
    } else if prefix || root {
        parts.len() == 0
    } else {
        parts.len() <= 1
    }
}

// ---------------------------------------------------------------------------------------------
// Components of paths that are put together
// ---------------------------------------------------------------------------------------------
/// A component ends where a separator or nothing follows it, and holds none.
proof fn lemma_component_end(os: Os, literal: bool, path: Seq<char>, from: int)
    requires
        0 <= from <= path.len(),
    ensures
        from <= component_end(os, literal, path, from) <= path.len(),
        forall|i: int|
            from <= i < component_end(os, literal, path, from) ==> !parts_components(
                os,
                literal,
                #[trigger] path[i],
            ),
    decreases path.len() - from,
{
    if from < path.len() && !parts_components(os, literal, path[from]) {
        lemma_component_end(os, literal, path, from + 1);
    }
}

/// A prefix is a part of its path, and a verbatim path has one that holds its beginning.
proof fn lemma_prefix_len(os: Os, path: Seq<char>)
    ensures
        0 <= prefix_len(os, path) <= path.len(),
        verbatim(os, path) ==> prefix_len(os, path) >= 4,
{
    if verbatim(os, path) {
        lemma_component_end(os, true, path, 4);
        if path.len() >= 8 {
            lemma_component_end(os, true, path, 8);
            let server = component_end(os, true, path, 8);
            if server < path.len() {
                lemma_component_end(os, true, path, server + 1);
            }
        }
    } else {
        if path.len() >= 4 {
            lemma_component_end(os, false, path, 4);
        }
        if path.len() >= 2 {
            lemma_component_end(os, false, path, 2);
            let server = component_end(os, false, path, 2);
            if server < path.len() {
                lemma_component_end(os, false, path, server + 1);
            }
        }
    }
}

/// A path that is no more than a prefix ends in a separator only where it names a device, and
/// none yet.
proof fn lemma_closed_prefix(os: Os, path: Seq<char>)
    requires
        !verbatim(os, path),
        path.len() > 0,
        prefix_len(os, path) == path.len(),
        parts_path(os, path.last()),
    ensures
        os is Windows,
        path.len() == 4,
        parts_path(os, path[0]) && parts_path(os, path[1]),
        path[2] == '.',
        parts_path(os, path[3]),
{
    if path.len() >= 4 {
        lemma_component_end(os, false, path, 4);
    }
    if path.len() >= 2 {
        lemma_component_end(os, false, path, 2);
        let server = component_end(os, false, path, 2);
        if server < path.len() {
            lemma_component_end(os, false, path, server + 1);
        }
    }
    assert(path[path.len() - 1] == path.last());
}

/// Pieces that follow others count as such.
proof fn lemma_counted_concat(a: Seq<Seq<char>>, b: Seq<Seq<char>>)
    requires
        a.len() > 0,
    ensures
        counted(a + b, false) == counted(a, false) + counted_later(b),
    decreases b.len(),
{
    if b.len() == 0 {
        assert(a + b =~= a);
    } else {
        lemma_counted_concat(a, b.drop_last());
        assert((a + b).drop_last() =~= a + b.drop_last());
        assert(counted(a + b, false) =~= counted(a, false) + counted_later(b));
    }
}

/// The only piece of an empty text does not count.
proof fn lemma_no_components(c: char, literal: bool)
    ensures
        text::pieces(Seq::empty(), c) == seq![Seq::<char>::empty()],
        counted(text::pieces(Seq::empty(), c), literal) == Seq::<Seq<char>>::empty(),
        counted_later(text::pieces(Seq::empty(), c)) == Seq::<Seq<char>>::empty(),
{
    let none = Seq::<char>::empty();
    assert(text::pieces(none, c) =~= seq![none]);
    assert(seq![none].drop_last() =~= Seq::empty());
    reveal_with_fuel(counted, 2);
    reveal_with_fuel(counted_later, 2);
}

/// Components are not empty and hold no separator.
proof fn lemma_components_are_names(os: Os, path: Seq<char>)
    ensures
        forall|i: int|
            0 <= i < components(os, path).len() ==> is_name(os, #[trigger] components(os, path)[i]),
{
    let pieces = text::pieces(plain_rest(os, path), path_separator(os));
    text::lemma_pieces_free(plain_rest(os, path), path_separator(os));
    lemma_counted_are_names(os, pieces, verbatim(os, path));
}

/// A text that is not empty and holds no separator.
spec fn is_name(os: Os, part: Seq<char>) -> bool {
    part.len() > 0 && !part.contains(path_separator(os))
}

/// Pieces that count are not empty.
proof fn lemma_counted_are_names(os: Os, pieces: Seq<Seq<char>>, literal: bool)
    requires
        forall|i: int|
            0 <= i < pieces.len() ==> !(#[trigger] pieces[i]).contains(path_separator(os)),
    ensures
        forall|i: int|
            0 <= i < counted(pieces, literal).len() ==> is_name(
                os,
                #[trigger] counted(pieces, literal)[i],
            ),
    decreases pieces.len(),
{
    if pieces.len() > 0 {
        let before = pieces.drop_last();
        assert forall|i: int| 0 <= i < before.len() implies !(#[trigger] before[i]).contains(
            path_separator(os),
        ) by {
            assert(before[i] == pieces[i]);
        }
        lemma_counted_are_names(os, before, literal);
        assert(!pieces[pieces.len() - 1].contains(path_separator(os)));
        let parts = counted(before, literal);
        assert forall|i: int| 0 <= i < counted(pieces, literal).len() implies is_name(
            os,
            #[trigger] counted(pieces, literal)[i],
        ) by {
            if i < parts.len() {
                assert(counted(pieces, literal)[i] == parts[i]);
            }
        }
    }
}

/// What names lead to consists of names.
proof fn lemma_walked_are_names(os: Os, from: Seq<Seq<char>>, parts: Seq<Seq<char>>)
    requires
        forall|i: int| 0 <= i < from.len() ==> is_name(os, #[trigger] from[i]),
        forall|i: int| 0 <= i < parts.len() ==> is_name(os, #[trigger] parts[i]),
    ensures
        forall|i: int|
            0 <= i < walked(from, parts).len() ==> is_name(os, #[trigger] walked(from, parts)[i]),
    decreases parts.len(),
{
    if parts.len() > 0 {
        let before = parts.drop_last();
        assert forall|i: int| 0 <= i < before.len() implies is_name(os, #[trigger] before[i]) by {
            assert(before[i] == parts[i]);
        }
        lemma_walked_are_names(os, from, before);
        assert(is_name(os, parts[parts.len() - 1]));
        assert(walked(from, before).len() > 0 ==> forall|i: int|
            0 <= i < walked(from, before).drop_last().len() ==> #[trigger] walked(
                from,
                before,
            ).drop_last()[i] == walked(from, before)[i]);
    }
}

/// Names all count in a verbatim path, behind what is before its first separator.
proof fn lemma_names_count(os: Os, parts: Seq<Seq<char>>)
    requires
        forall|i: int| 0 <= i < parts.len() ==> is_name(os, #[trigger] parts[i]),
    ensures
        counted(seq![Seq::<char>::empty()] + parts, true) == parts,
    decreases parts.len(),
{
    let first = seq![Seq::<char>::empty()];
    if parts.len() == 0 {
        assert(first + parts =~= first);
        assert(first.drop_last() =~= Seq::empty());
        reveal_with_fuel(counted, 2);
        assert(counted(first, true) =~= parts);
    } else {
        let before = parts.drop_last();
        assert forall|i: int| 0 <= i < before.len() implies is_name(os, #[trigger] before[i]) by {
            assert(before[i] == parts[i]);
        }
        lemma_names_count(os, before);
        assert((first + parts).drop_last() =~= first + before);
        assert(is_name(os, parts[parts.len() - 1]));
        assert(before.push(parts.last()) =~= parts);
    }
}

/// A verbatim path with other components has these, where its prefix stays as it is.
proof fn lemma_with_components(os: Os, base: Seq<char>, parts: Seq<Seq<char>>)
    requires
        verbatim(os, base),
        prefix_len(os, with_components(os, base, parts)) == prefix_len(os, base),
        forall|i: int| 0 <= i < parts.len() ==> is_name(os, #[trigger] parts[i]),
    ensures
        verbatim(os, with_components(os, base, parts)),
        components(os, with_components(os, base, parts)) == parts,
{
    let sep = path_separator(os);
    let path = with_components(os, base, parts);
    let rest = plain_rest(os, path);
    let none = Seq::<char>::empty();
    lemma_prefix_len(os, base);
    lemma_no_components(sep, true);
    if parts.len() == 0 && !slashed(os, base) {
        assert(rest =~= none);
    } else {
        let tail = text::joined(parts, seq![sep]);
        assert(rest =~= none.push(sep) + tail);
        text::lemma_pieces_concat(none, tail, sep);
        if parts.len() == 0 {
            assert(tail =~= none);
            assert(seq![none] + seq![none] =~= seq![none, none]);
            assert(seq![none, none].drop_last() =~= seq![none]);
            assert(seq![none].drop_last() =~= Seq::empty());
            reveal_with_fuel(counted, 3);
        } else {
            assert forall|i: int| 0 <= i < parts.len() implies !(#[trigger] parts[i]).contains(
                sep,
            ) by {
                assert(is_name(os, parts[i]));
            }
            text::lemma_pieces_joined(parts, sep);
            lemma_names_count(os, parts);
        }
    }
}

/// Where its prefix stays as it is, a path that is put below another has the components that it
/// leads to from there.
pub proof fn lemma_joined_components(os: Os, base: Seq<char>, part: Seq<char>)
    requires
        !rooted(os, part),
        prefix_len(os, part) == 0,
        prefix_len(os, joined_path(os, base, part)) == prefix_len(os, base),
    ensures
        verbatim(os, joined_path(os, base, part)) == verbatim(os, base),
        prefix_of(os, joined_path(os, base, part)) == prefix_of(os, base),
        components(os, joined_path(os, base, part)) == components_below(os, base, part),
{
    let path = joined_path(os, base, part);
    let end = prefix_len(os, base);
    lemma_prefix_len(os, base);
    lemma_prefix_len(os, path);
    lemma_prefix_len(os, part);
    assert(forall|i: int| 0 <= i < end ==> path[i] == base[i]);
    if verbatim(os, base) && part.len() > 0 {
        lemma_components_are_names(os, base);
        lemma_components_are_names(os, part);
        let parts = walked(components(os, base), components(os, part));
        lemma_walked_are_names(os, components(os, base), components(os, part));
        lemma_with_components(os, base, parts);
    } else {
        assert(forall|i: int| 0 <= i < base.len() ==> path[i] == base[i]);
        assert(verbatim(os, path) == verbatim(os, base));
        lemma_concat_components(os, base, part);
    }
    assert(prefix_of(os, path) =~= prefix_of(os, base));
}

/// A path without a prefix is not verbatim.
pub proof fn lemma_not_verbatim(os: Os, path: Seq<char>)
    requires
        prefix_len(os, path) == 0,
    ensures
        !verbatim(os, path),
{
    lemma_prefix_len(os, path);
}

/// Nothing, and a drive alone, have no components.
pub proof fn lemma_bare_start(os: Os, path: Seq<char>)
    requires
        path.len() == 0 || (os is Windows && path.len() == 2 && drive_at(path, 0)),
    ensures
        components(os, path) == Seq::<Seq<char>>::empty(),
{
    assert(plain_rest(os, path) =~= Seq::empty());
    lemma_no_components(path_separator(os), false);
}

/// The components of two paths that are written one behind the other.
proof fn lemma_concat_components(os: Os, base: Seq<char>, part: Seq<char>)
    requires
        !(verbatim(os, base) && part.len() > 0),
        !rooted(os, part),
        prefix_len(os, part) == 0,
        prefix_len(os, joined_path(os, base, part)) == prefix_len(os, base),
        verbatim(os, joined_path(os, base, part)) == verbatim(os, base),
    ensures
        components(os, joined_path(os, base, part)) == components_below(os, base, part),
{
    let sep = path_separator(os);
    let path = joined_path(os, base, part);
    let outer = plain_rest(os, base);
    let inner = plain_rest(os, path);
    let added = plain_rest(os, part);
    let literal = verbatim(os, base);
    lemma_prefix_len(os, base);
    lemma_prefix_len(os, part);
    lemma_no_components(sep, literal);
    lemma_no_components(sep, false);
    if part.len() == 0 {
        assert(added =~= Seq::empty());
        assert(components(os, part) =~= Seq::empty());
        if open_ended(os, base) {
            assert(path =~= base);
        } else {
            assert(inner =~= outer.push(sep) + added);
            text::lemma_pieces_concat(outer, added, sep);
            let pieces = text::pieces(outer, sep);
            assert((pieces + seq![added]).drop_last() =~= pieces);
        }
    } else if base.len() == 0 || (os is Windows && base.len() == 2 && drive_at(base, 0)) {
        assert(inner =~= added);
    } else if !open_ended(os, base) {
        assert(inner =~= outer.push(sep) + added);
        text::lemma_pieces_concat(outer, added, sep);
        lemma_counted_concat(text::pieces(outer, sep), text::pieces(added, sep));
    } else {
        assert(prefix_len(os, base) < base.len()) by {
            if prefix_len(os, base) == base.len() {
                lemma_closed_prefix(os, base);
                assert(path[4] == part[0]);
                lemma_component_end(os, false, path, 5);
            }
        }
        let before = outer.drop_last();
        let none = Seq::<char>::empty();
        assert(outer.last() == sep);
        assert(outer =~= before.push(sep) + none);
        assert(inner =~= before.push(sep) + added);
        text::lemma_pieces_concat(before, none, sep);
        text::lemma_pieces_concat(before, added, sep);
        lemma_counted_concat(text::pieces(before, sep), text::pieces(none, sep));
        lemma_counted_concat(text::pieces(before, sep), text::pieces(added, sep));
        assert(components(os, base) =~= counted(text::pieces(before, sep), false));
    }
}

// ---------------------------------------------------------------------------------------------
// Laws
// ---------------------------------------------------------------------------------------------

/// A mere name: not empty, no dots alone, without a separator, and without what would be a prefix.
pub open spec fn plain_name(os: Os, name: Seq<char>) -> bool {
    &&& name.len() > 0
    &&& name != "."@
    &&& name != ".."@
    &&& forall|i: int| 0 <= i < name.len() ==> !parts_path(os, #[trigger] name[i])
    &&& prefix_len(os, name) == 0
}

/// A name that is put below a directory is the name of what the path leads to, one component
/// behind those of the directory. The directory names a whole prefix, where it names one.
pub proof fn law_path_below_ends_in_its_name(os: Os, base: Seq<char>, name: Seq<char>)
    requires
        plain_name(os, name),
        prefix_len(os, joined_path(os, base, name)) == prefix_len(os, base),
    ensures
        components(os, joined_path(os, base, name)) == components(os, base).push(name),
        name_of(os, joined_path(os, base, name)) == Some(name),
{
    let sep = path_separator(os);
    lemma_not_verbatim(os, name);
    let plain = plain_rest(os, name);
    assert(plain =~= name);
    assert forall|i: int| 0 <= i < plain.len() implies plain[i] != sep by {
        assert(!parts_path(os, name[i]));
    }
    text::lemma_first_of_is(plain, sep, plain.len() as int);
    let only = seq![name];
    assert(text::pieces(plain, sep) =~= only);
    assert(only.drop_last() =~= Seq::empty());
    reveal_with_fuel(counted, 2);
    reveal_with_fuel(counted_later, 2);
    assert(counted(only, false) =~= only);
    assert(counted_later(only) =~= only);
    assert(!rooted(os, name)) by {
        assert(!parts_path(os, name[0]));
    }
    lemma_joined_components(os, base, name);
    let outer = components(os, base);
    assert(outer + only =~= outer.push(name));
    reveal_with_fuel(walked, 2);
    if !verbatim(os, base) && (base.len() == 0 || (os is Windows && base.len() == 2 && drive_at(
        base,
        0,
    ))) {
        lemma_bare_start(os, base);
        assert(Seq::<Seq<char>>::empty().push(name) =~= only);
    }
}

/// A path below a directory is written with one separator between them; none is added where the
/// directory ends in one or is empty.
pub proof fn law_paths_are_joined_by_a_separator(os: Os, base: Seq<char>, part: Seq<char>)
    requires
        !(os is Windows),
    ensures
        base.len() == 0 ==> joined_path(os, base, part) == part,
        base.len() > 0 && base.last() == '/' ==> joined_path(os, base, part) == base + part,
        base.len() > 0 && base.last() != '/' ==> joined_path(os, base, part) == base.push('/')
            + part,
{
    if base.len() == 0 {
        assert(base + part =~= part);
    }
}

/// A name without its extension: what precedes the last dot, where that does not begin the name.
pub proof fn law_extension_is_cut_at_the_last_dot(name: Seq<char>, extension: Seq<char>)
    requires
        !extension.contains('.'),
    ensures
        name.len() > 0 ==> stem(name.push('.') + extension) == name,
        stem(extension) == extension,
    decreases extension.len(),
{
    if extension.len() > 1 {
        lemma_no_dot(extension);
    }
    if name.len() > 0 {
        lemma_last_dot(name, extension);
        let whole = name.push('.') + extension;
        assert(whole.take(name.len() as int) =~= name);
    }
}

proof fn lemma_no_dot(s: Seq<char>)
    requires
        !s.contains('.'),
    ensures
        last_dot(s) is None,
    decreases s.len(),
{
    if s.len() > 1 {
        assert(s.last() != '.') by {
            assert(s[s.len() - 1] == s.last());
        }
        let rest = s.drop_last();
        assert(!rest.contains('.')) by {
            if rest.contains('.') {
                let i = choose|i: int| 0 <= i < rest.len() && rest[i] == '.';
                assert(s[i] == '.');
            }
        }
        lemma_no_dot(rest);
    }
}

proof fn lemma_last_dot(name: Seq<char>, extension: Seq<char>)
    requires
        name.len() > 0,
        !extension.contains('.'),
    ensures
        last_dot(name.push('.') + extension) == Some(name.len() as int),
    decreases extension.len(),
{
    let whole = name.push('.') + extension;
    if extension.len() == 0 {
        assert(whole =~= name.push('.'));
    } else {
        assert(extension[extension.len() - 1] != '.');
        let rest = extension.drop_last();
        assert(!rest.contains('.')) by {
            if rest.contains('.') {
                let i = choose|i: int| 0 <= i < rest.len() && rest[i] == '.';
                assert(extension[i] == '.');
            }
        }
        assert(whole.drop_last() =~= name.push('.') + rest);
        lemma_last_dot(name, rest);
    }
}

/// Being one place is what any two spellings have in common: a path is its own place, and of two
/// paths each is the other's place or neither is; on a machine without prefixes, separators that
/// are doubled or stand at the end do not matter.
pub proof fn law_one_place_has_many_spellings(os: Os, a: Seq<char>, b: Seq<char>, c: Seq<char>)
    ensures
        same_place(os, a, a),
        same_place(os, a, b) == same_place(os, b, a),
        same_place(os, a, b) && same_place(os, b, c) ==> same_place(os, a, c),
        !(os is Windows) && a.len() > 0 ==> same_place(os, a, a.push('/')),
{
    if !(os is Windows) && a.len() > 0 {
        let longer = a.push('/');
        assert(plain_rest(os, a) =~= a);
        assert(plain_rest(os, longer) =~= longer);
        let none = Seq::<char>::empty();
        assert(longer =~= a.push('/') + none);
        text::lemma_pieces_concat(a, none, '/');
        lemma_no_components('/', false);
        let pieces = text::pieces(a, '/');
        assert((pieces + seq![none]).drop_last() =~= pieces);
        assert(components(os, longer) =~= components(os, a));
        assert(longer[0] == a[0]);
        assert(prefix_of(os, longer) =~= prefix_of(os, a));
    }
}

} // verus!

//! Text: trimming, numbers in decimal, file names.

use vstd::prelude::*;
use vstd::string::*;

verus! {

/// The character has the Unicode property White_Space: these are all that do.
pub open spec fn white(c: char) -> bool {
    let n = c as u32;
    ||| 0x9 <= n <= 0xd || n == 0x20
    ||| n == 0x85 || n == 0xa0
    ||| n == 0x1680
    ||| 0x2000 <= n <= 0x200a
    ||| n == 0x2028 || n == 0x2029 || n == 0x202f || n == 0x205f
    ||| n == 0x3000
}

/// `char::is_whitespace`: whether the character has the Unicode property
/// White_Space.
#[verifier::external_body]
pub(crate) fn is_whitespace(c: char) -> (r: bool)
    ensures
        r == white(c),
{
    c.is_whitespace()
}

/// `String::push`: the character is added at the end.
pub assume_specification[ String::push ](s: &mut String, c: char)
    ensures
        final(s)@ == old(s)@.push(c),
;

/// The text without the white space at its start.
pub open spec fn trimmed_start(s: Seq<char>) -> Seq<char>
    decreases s.len(),
{
    if s.len() > 0 && white(s[0]) {
        trimmed_start(s.drop_first())
    } else {
        s
    }
}

/// The text without the white space at its end.
pub open spec fn trimmed_end(s: Seq<char>) -> Seq<char>
    decreases s.len(),
{
    if s.len() > 0 && white(s.last()) {
        trimmed_end(s.drop_last())
    } else {
        s
    }
}

/// The text without the white space at either end.
pub open spec fn trimmed(s: Seq<char>) -> Seq<char> {
    trimmed_end(trimmed_start(s))
}

/// A text that ends with something else than white space is not blank.
pub proof fn lemma_not_blank(s: Seq<char>)
    requires
        s.len() > 0,
        !white(s.last()),
    ensures
        trimmed(s).len() > 0,
{
    lemma_trimmed_start_ends(s);
}

proof fn lemma_trimmed_start_ends(s: Seq<char>)
    requires
        s.len() > 0,
        !white(s.last()),
    ensures
        trimmed_start(s).len() > 0,
        trimmed_start(s).last() == s.last(),
    decreases s.len(),
{
    if white(s[0]) {
        assert(s.len() > 1);
        lemma_trimmed_start_ends(s.drop_first());
    }
}

/// The text without the white space at either end.
pub fn trim(s: &str) -> (r: String)
    ensures
        r@ == trimmed(s@),
{
    let n: usize = s.unicode_len();
    let mut from: usize = 0;
    assert(s@.skip(0) =~= s@);
    while from < n && is_whitespace(s.get_char(from))
        invariant
            from <= n,
            n == s@.len(),
            trimmed_start(s@) == trimmed_start(s@.skip(from as int)),
        decreases n - from,
    {
        assert(s@.skip(from as int).drop_first() =~= s@.skip(from + 1));
        from += 1;
    }
    let mut to: usize = n;
    assert(s@.subrange(from as int, n as int) =~= s@.skip(from as int));
    while to > from && is_whitespace(s.get_char(to - 1))
        invariant
            from <= to <= n,
            n == s@.len(),
            trimmed(s@) == trimmed_end(s@.subrange(from as int, to as int)),
        decreases to,
    {
        assert(s@.subrange(from as int, to as int).drop_last() =~= s@.subrange(from as int, to - 1));
        to -= 1;
    }
    s.substring_char(from, to).to_owned()
}

/// The decimal digits of a number.
pub open spec fn decimal_digits(n: nat) -> Seq<char>
    decreases n,
{
    let last = digit_char(n % 10);
    if n < 10 {
        seq![last]
    } else {
        decimal_digits(n / 10).push(last)
    }
}

/// The character of one decimal digit.
pub open spec fn digit_char(d: nat) -> char {
    if d == 0 {
        '0'
    } else if d == 1 {
        '1'
    } else if d == 2 {
        '2'
    } else if d == 3 {
        '3'
    } else if d == 4 {
        '4'
    } else if d == 5 {
        '5'
    } else if d == 6 {
        '6'
    } else if d == 7 {
        '7'
    } else if d == 8 {
        '8'
    } else {
        '9'
    }
}

/// The character of one decimal digit.
fn digit(d: u128) -> (r: char)
    requires
        d < 10,
    ensures
        r == digit_char(d as nat),
{
    match d {
        0 => '0',
        1 => '1',
        2 => '2',
        3 => '3',
        4 => '4',
        5 => '5',
        6 => '6',
        7 => '7',
        8 => '8',
        _ => '9',
    }
}

/// The number written in decimal.
pub fn decimal(n: u128) -> (r: String)
    ensures
        r@ == decimal_digits(n as nat),
    decreases n,
{
    let mut r = if n < 10 {
        String::new()
    } else {
        decimal(n / 10)
    };
    r.push(digit(n % 10));
    assert(n < 10 ==> r@ =~= seq![digit_char((n % 10) as nat)]);
    r
}

/// Both texts hold the same characters.
pub fn same_text(a: &str, b: &str) -> (r: bool)
    ensures
        r == (a@ == b@),
{
    let n: usize = a.unicode_len();
    if n != b.unicode_len() {
        return false;
    }
    let mut i: usize = 0;
    while i < n
        invariant
            i <= n,
            n == a@.len(),
            n == b@.len(),
            forall|j: int| 0 <= j < i ==> a@[j] == b@[j],
        decreases n - i,
    {
        if a.get_char(i) != b.get_char(i) {
            return false;
        }
        i += 1;
    }
    assert(a@ =~= b@);
    true
}

/// One text behind the other.
pub fn join(a: &str, b: &str) -> (r: String)
    ensures
        r@ == a@ + b@,
{
    let mut r = a.to_owned();
    r.append(b);
    r
}

/// Three texts, one behind the other.
pub fn join3(a: &str, b: &str, c: &str) -> (r: String)
    ensures
        r@ == a@ + b@ + c@,
{
    let mut r = join(a, b);
    r.append(c);
    r
}

/// What an optional text holds.
pub open spec fn text_of(o: Option<String>) -> Option<Seq<char>> {
    match o {
        Some(s) => Some(s@),
        None => None,
    }
}

/// Both are absent, or hold the same characters.
pub fn same_optional_text(a: &Option<String>, b: &Option<String>) -> (r: bool)
    ensures
        r == (text_of(*a) == text_of(*b)),
{
    match (a, b) {
        (Some(x), Some(y)) => same_text(x.as_str(), y.as_str()),
        (None, None) => true,
        _ => false,
    }
}

/// The text is the name of a file in its own right: not empty, without
/// anything that parts the components of a path, and not one of the two names
/// that stand for directories.
pub open spec fn plain_file_name(s: Seq<char>) -> bool {
    &&& s.len() > 0
    &&& forall|i: int| 0 <= i < s.len() ==> (#[trigger] s[i]) != '/' && s[i] != '\\' && s[i] != ':'
    &&& s != seq!['.']
    &&& s != seq!['.', '.']
}

/// The place of the last slash, or -1 where there is none.
pub open spec fn last_slash(s: Seq<char>) -> int
    decreases s.len(),
{
    if s.len() == 0 {
        -1
    } else if s.last() == '/' {
        s.len() - 1
    } else {
        last_slash(s.drop_last())
    }
}

/// What stands behind the last slash of a path.
pub open spec fn file_part(path: Seq<char>) -> Seq<char> {
    path.skip(last_slash(path) + 1)
}

/// The character parts the components of a path somewhere.
pub open spec fn parts_components(c: char) -> bool {
    c == '/' || c == '\\'
}

/// The path reads the same everywhere: its components are parted by slashes,
/// the last is a file name in its own right, and it does not begin with two of
/// what somewhere begins the name of a server.
pub open spec fn known_path(path: Seq<char>) -> bool {
    &&& plain_file_name(file_part(path))
    &&& !(path.len() >= 2 && parts_components(path[0]) && parts_components(path[1]))
}

proof fn lemma_last_slash(s: Seq<char>)
    ensures
        -1 <= last_slash(s) < s.len(),
        forall|i: int| last_slash(s) < i < s.len() ==> s[i] != '/',
    decreases s.len(),
{
    if s.len() > 0 && s.last() != '/' {
        lemma_last_slash(s.drop_last());
        assert forall|i: int| last_slash(s) < i < s.len() implies s[i] != '/' by {
            if i < s.len() - 1 {
                assert(s.drop_last()[i] == s[i]);
            }
        }
    }
}

/// A file name in its own right is a path of one component.
pub proof fn law_file_name_is_its_own_path(s: Seq<char>)
    requires
        plain_file_name(s),
    ensures
        known_path(s),
        file_part(s) == s,
{
    lemma_last_slash(s);
    if last_slash(s) >= 0 {
        lemma_slash_there(s);
        assert(s[last_slash(s)] == '/');
    }
    assert(file_part(s) =~= s);
    if s.len() >= 2 {
        assert(s[0] != '/' && s[0] != '\\');
    }
}

proof fn lemma_slash_there(s: Seq<char>)
    requires
        last_slash(s) >= 0,
    ensures
        last_slash(s) < s.len(),
        s[last_slash(s)] == '/',
    decreases s.len(),
{
    if s.last() != '/' {
        lemma_slash_there(s.drop_last());
        lemma_last_slash(s.drop_last());
    }
}

/// The place of the last dot, or -1 where there is none.
pub open spec fn last_dot(s: Seq<char>) -> int
    decreases s.len(),
{
    if s.len() == 0 {
        -1
    } else if s.last() == '.' {
        s.len() - 1
    } else {
        last_dot(s.drop_last())
    }
}

/// A file name without its extension: what stands before the last dot, or all
/// of it where there is none or only the first character is one.
pub open spec fn stem_of(s: Seq<char>) -> Seq<char> {
    if last_dot(s) <= 0 {
        s
    } else {
        s.take(last_dot(s))
    }
}

/// The stem of a file name is not empty.
pub proof fn lemma_stem_not_empty(s: Seq<char>)
    requires
        s.len() > 0,
    ensures
        stem_of(s).len() > 0,
{
    lemma_last_dot(s);
}

proof fn lemma_last_dot(s: Seq<char>)
    ensures
        -1 <= last_dot(s) < s.len(),
    decreases s.len(),
{
    if s.len() > 0 && s.last() != '.' {
        lemma_last_dot(s.drop_last());
    }
}

/// `std::path::Path::file_stem`: the last component of the path without its
/// extension. What a path's components are rests on the platform, so only
/// paths that read the same everywhere are spoken of.
#[verifier::external_body]
pub(crate) fn file_stem(name: &str) -> (r: Option<String>)
    ensures
        known_path(name@) ==> text_of(r) == Some(stem_of(file_part(name@))),
{
    std::path::Path::new(name).file_stem().and_then(|stem| stem.to_str()).map(|stem| stem.to_owned())
}

/// `std::path::Path::file_name`: the last component of the path. What a path's
/// components are rests on the platform, so only paths that read the same
/// everywhere are spoken of.
#[verifier::external_body]
pub(crate) fn file_name(path: &str) -> (r: Option<String>)
    ensures
        known_path(path@) ==> text_of(r) == Some(file_part(path@)),
{
    std::path::Path::new(path).file_name().and_then(|name| name.to_str()).map(|name| name.to_owned())
}

/// The extension of a file name: what stands behind the last dot, unless there
/// is none or only the first character is one.
pub open spec fn extension_of(s: Seq<char>) -> Option<Seq<char>> {
    if last_dot(s) <= 0 {
        None
    } else {
        Some(s.skip(last_dot(s) + 1))
    }
}

/// `std::path::Path::extension`: the extension of the last component of the
/// path. What a path's components are rests on the platform, so only paths
/// that read the same everywhere are spoken of.
#[verifier::external_body]
pub(crate) fn extension(path: &str) -> (r: Option<String>)
    ensures
        known_path(path@) ==> text_of(r) == extension_of(file_part(path@)),
{
    std::path::Path::new(path).extension().and_then(|extension| extension.to_str()).map(|extension| extension.to_owned())
}

/// `std::path::Path::with_extension`: the path with another extension. What a
/// path's components are rests on the platform, so only paths that read the
/// same everywhere, and have no extension, are spoken of: there it is added
/// behind a dot. An extension that parts components is left out: with one the function panics.
#[verifier::external_body]
fn with_extension(path: &str, extension: &str) -> (r: String)
    requires
        plain_file_name(extension@),
    ensures
        known_path(path@) && last_dot(file_part(path@)) <= 0 ==> r@ == path@ + "."@ + extension@,
{
    std::path::Path::new(path).with_extension(extension).to_string_lossy().into_owned()
}

/// The path that a file without an extension is given.
pub open spec fn completed(path: Seq<char>, extension: Seq<char>, r: Seq<char>) -> bool {
    &&& known_path(path) && last_dot(file_part(path)) > 0 ==> r == path
    &&& known_path(path) && last_dot(file_part(path)) <= 0 ==> r == path + "."@ + extension
}

/// The path, with an extension where it had none.
pub fn complete_extension(path: String, extension_wanted: &str) -> (r: String)
    requires
        plain_file_name(extension_wanted@),
    ensures
        completed(path@, extension_wanted@, r@),
{
    match extension(path.as_str()) {
        Some(_) => path,
        None => with_extension(path.as_str(), extension_wanted),
    }
}

} // verus!

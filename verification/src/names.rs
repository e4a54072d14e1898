//! Names for files, layers and items.

use crate::text::{decimal, decimal_digits, digit_char, join, join3, same_text, trim, trimmed, trimmed_end, trimmed_start, white};
use vstd::prelude::*;
use vstd::string::*;

verus! {

/// Whether the Unicode properties Alphabetic or Numeric hold of a character.
pub uninterp spec fn alphanumeric(c: char) -> bool;

/// The character is a letter or a digit, of any script.
pub open spec fn letter_or_digit(c: char) -> bool {
    if (c as u32) < 128 {
        ascii_alphanumeric(c)
    } else {
        alphanumeric(c)
    }
}

/// `char::is_alphanumeric`: whether the character has one of the Unicode
/// properties Alphabetic and Numeric. Of the ASCII characters these are the
/// letters and the digits; which characters beyond ASCII have it is not stated.
#[verifier::external_body]
fn is_alphanumeric(c: char) -> (r: bool)
    ensures
        r == (if (c as u32) < 128 {
            ascii_alphanumeric(c)
        } else {
            alphanumeric(c)
        }),
{
    c.is_alphanumeric()
}

/// The character cannot stand in a file name on every platform.
pub open spec fn invalid_in_file_name(c: char) -> bool {
    c == '/' || c == '\\' || c == ':' || c == '*' || c == '?' || c == '"' || c == '<' || c == '>' || c == '|'
}

/// The text with every character that cannot stand in a file name replaced.
pub open spec fn cleaned(s: Seq<char>) -> Seq<char> {
    s.map_values(|c: char| if invalid_in_file_name(c) { '_' } else { c })
}

/// The stem of a file for something with a name.
pub open spec fn file_stem_for(name: Seq<char>) -> Seq<char> {
    let t = trimmed(cleaned(trimmed(name)));
    if t.len() == 0 {
        "layer"@
    } else {
        t
    }
}

/// The character is an ASCII letter or digit.
pub open spec fn ascii_alphanumeric(c: char) -> bool {
    ('a' <= c && c <= 'z') || ('A' <= c && c <= 'Z') || ('0' <= c && c <= '9')
}

/// The text with every character but ASCII letters, digits, `-` and `_` replaced.
pub open spec fn plain_ascii(s: Seq<char>) -> Seq<char> {
    s.map_values(|c: char| if ascii_alphanumeric(c) || c == '-' || c == '_' { c } else { '_' })
}

/// The text without the underscores at its start.
pub open spec fn unscored_start(s: Seq<char>) -> Seq<char>
    decreases s.len(),
{
    if s.len() > 0 && s[0] == '_' {
        unscored_start(s.drop_first())
    } else {
        s
    }
}

/// The text without the underscores at its end.
pub open spec fn unscored_end(s: Seq<char>) -> Seq<char>
    decreases s.len(),
{
    if s.len() > 0 && s.last() == '_' {
        unscored_end(s.drop_last())
    } else {
        s
    }
}

/// The text without the underscores at either end.
pub open spec fn unscored(s: Seq<char>) -> Seq<char> {
    unscored_end(unscored_start(s))
}

/// The stem of the file that a project is exported to.
pub open spec fn export_stem(name: Seq<char>) -> Seq<char> {
    let t = unscored(plain_ascii(name));
    if t.len() == 0 {
        "incline_design_project"@
    } else {
        t
    }
}

/// The lower case of an ASCII capital; any other character as it is.
pub open spec fn ascii_lower(c: char) -> char {
    if 'A' <= c && c <= 'Z' {
        ((c as u32 + 32) as u32) as char
    } else {
        c
    }
}

/// The text in ASCII lower case, with what is neither letter nor digit replaced.
pub open spec fn drawing_chars(s: Seq<char>) -> Seq<char> {
    s.map_values(|c: char| if letter_or_digit(c) { ascii_lower(c) } else { '_' })
}

/// The stem of the file that a drawing goes to.
pub open spec fn drawing_stem(title: Seq<char>) -> Seq<char> {
    let t = unscored(drawing_chars(title));
    if t.len() == 0 {
        "Plot"@
    } else {
        t
    }
}

/// The text ends in the extension of project files, in either case.
pub open spec fn ends_in_omf(s: Seq<char>) -> bool {
    let n = s.len();
    n >= 4 && s[n - 4] == '.' && (s[n - 3] == 'o' || s[n - 3] == 'O') && (s[n - 2] == 'm' || s[n - 2] == 'M') && (s[n - 1] == 'f' || s[n - 1] == 'F')
}

/// The text without the extensions of project files at its end.
pub open spec fn without_omf(s: Seq<char>) -> Seq<char>
    decreases s.len(),
{
    if ends_in_omf(s) {
        proof {
            lemma_trimmed_end_len(s.take(s.len() - 4));
        }
        without_omf(trimmed_end(s.take(s.len() - 4)))
    } else {
        s
    }
}

/// Trimming adds nothing.
pub proof fn lemma_trimmed_end_len(s: Seq<char>)
    ensures
        trimmed_end(s).len() <= s.len(),
    decreases s.len(),
{
    if s.len() > 0 && white(s.last()) {
        lemma_trimmed_end_len(s.drop_last());
    }
}

/// The name of the file of a browser project.
pub open spec fn project_file_name(name: Seq<char>) -> Seq<char> {
    let stem = without_omf(trimmed(name));
    (if stem.len() == 0 {
        "Project"@
    } else {
        file_stem_for(stem)
    }) + ".omf"@
}

fn is_invalid(c: char) -> (r: bool)
    ensures
        r == invalid_in_file_name(c),
{
    c == '/' || c == '\\' || c == ':' || c == '*' || c == '?' || c == '"' || c == '<' || c == '>' || c == '|'
}

/// Replaces characters that cannot stand in a file name on every platform.
pub fn sanitize_file_stem(name: &str) -> (r: String)
    ensures
        r@ == file_stem_for(name@),
{
    let inner = trim(name);
    let text = inner.as_str();
    let n: usize = text.unicode_len();
    let mut out = String::new();
    let mut i: usize = 0;
    while i < n
        invariant
            i <= n,
            n == text@.len(),
            out@ == cleaned(text@.take(i as int)),
        decreases n - i,
    {
        let c = text.get_char(i);
        assert(cleaned(text@.take(i + 1)) =~= cleaned(text@.take(i as int)).push(if invalid_in_file_name(c) { '_' } else { c }));
        if is_invalid(c) {
            out.push('_');
        } else {
            out.push(c);
        }
        i += 1;
    }
    assert(text@.take(n as int) =~= text@);
    let t = trim(out.as_str());
    if t.as_str().unicode_len() == 0 {
        "layer".to_owned()
    } else {
        t
    }
}

/// The text without the underscores at either end.
fn trim_underscores(s: &str) -> (r: String)
    ensures
        r@ == unscored(s@),
{
    let n: usize = s.unicode_len();
    let mut from: usize = 0;
    assert(s@.skip(0) =~= s@);
    while from < n && s.get_char(from) == '_'
        invariant
            from <= n,
            n == s@.len(),
            unscored_start(s@) == unscored_start(s@.skip(from as int)),
        decreases n - from,
    {
        assert(s@.skip(from as int).drop_first() =~= s@.skip(from + 1));
        from += 1;
    }
    let mut to: usize = n;
    assert(s@.subrange(from as int, n as int) =~= s@.skip(from as int));
    while to > from && s.get_char(to - 1) == '_'
        invariant
            from <= to <= n,
            n == s@.len(),
            unscored(s@) == unscored_end(s@.subrange(from as int, to as int)),
        decreases to,
    {
        assert(s@.subrange(from as int, to as int).drop_last() =~= s@.subrange(from as int, to - 1));
        to -= 1;
    }
    s.substring_char(from, to).to_owned()
}

/// The stem of the file that a project is exported to.
pub fn safe_stem(name: &str) -> (r: String)
    ensures
        r@ == export_stem(name@),
{
    let n: usize = name.unicode_len();
    let mut out = String::new();
    let mut i: usize = 0;
    while i < n
        invariant
            i <= n,
            n == name@.len(),
            out@ == plain_ascii(name@.take(i as int)),
        decreases n - i,
    {
        let c = name.get_char(i);
        let keep = ('a' <= c && c <= 'z') || ('A' <= c && c <= 'Z') || ('0' <= c && c <= '9') || c == '-' || c == '_';
        assert(plain_ascii(name@.take(i + 1)) =~= plain_ascii(name@.take(i as int)).push(
            if ascii_alphanumeric(c) || c == '-' || c == '_' { c } else { '_' },
        ));
        if keep {
            out.push(c);
        } else {
            out.push('_');
        }
        i += 1;
    }
    assert(name@.take(n as int) =~= name@);
    let t = trim_underscores(out.as_str());
    if t.as_str().unicode_len() == 0 {
        "incline_design_project".to_owned()
    } else {
        t
    }
}

/// `char::to_ascii_lowercase`: an ASCII capital becomes its small letter, any
/// other character stays.
pub assume_specification[ char::to_ascii_lowercase ](c: &char) -> (r: char)
    ensures
        r == ascii_lower(*c),
;

/// The stem of the file that a drawing goes to.
pub fn sanitised_file_stem(title: &str) -> (r: String)
    ensures
        r@ == drawing_stem(title@),
{
    let n: usize = title.unicode_len();
    let mut out = String::new();
    let mut i: usize = 0;
    while i < n
        invariant
            i <= n,
            n == title@.len(),
            out@ == drawing_chars(title@.take(i as int)),
        decreases n - i,
    {
        let c = title.get_char(i);
        assert(drawing_chars(title@.take(i + 1)) =~= drawing_chars(title@.take(i as int)).push(if letter_or_digit(c) { ascii_lower(c) } else { '_' }));
        if is_alphanumeric(c) {
            out.push(c.to_ascii_lowercase());
        } else {
            out.push('_');
        }
        i += 1;
    }
    assert(title@.take(n as int) =~= title@);
    let t = trim_underscores(out.as_str());
    if t.as_str().unicode_len() == 0 {
        "Plot".to_owned()
    } else {
        t
    }
}

/// The text without the white space at its end.
fn trim_end(s: &str) -> (r: String)
    ensures
        r@ == trimmed_end(s@),
{
    let n: usize = s.unicode_len();
    let mut to: usize = n;
    assert(s@.take(n as int) =~= s@);
    while to > 0 && crate::text::is_whitespace(s.get_char(to - 1))
        invariant
            to <= n,
            n == s@.len(),
            trimmed_end(s@) == trimmed_end(s@.take(to as int)),
        decreases to,
    {
        assert(s@.take(to as int).drop_last() =~= s@.take(to - 1));
        to -= 1;
    }
    assert(s@.subrange(0, to as int) =~= s@.take(to as int));
    s.substring_char(0, to).to_owned()
}

fn has_omf_extension(s: &str) -> (r: bool)
    ensures
        r == ends_in_omf(s@),
{
    let n: usize = s.unicode_len();
    if n < 4 {
        return false;
    }
    let dot = s.get_char(n - 4);
    let o = s.get_char(n - 3);
    let m = s.get_char(n - 2);
    let f = s.get_char(n - 1);
    dot == '.' && (o == 'o' || o == 'O') && (m == 'm' || m == 'M') && (f == 'f' || f == 'F')
}

/// The name of the file of a browser project: portable, and with the
/// extension of project files once.
pub fn sanitize_project_name(name: &str) -> (r: String)
    ensures
        r@ == project_file_name(name@),
{
    let mut stem = trim(name);
    while has_omf_extension(stem.as_str())
        invariant
            without_omf(trimmed(name@)) == without_omf(stem@),
        decreases stem@.len(),
    {
        let s = stem.as_str();
        let n: usize = s.unicode_len();
        assert(s@.subrange(0, n - 4) =~= s@.take(n - 4));
        proof {
            lemma_trimmed_end_len(s@.take(n - 4));
        }
        let head = trim_end(s.substring_char(0, n - 4));
        stem = head;
    }
    if stem.as_str().unicode_len() == 0 {
        join("Project", ".omf")
    } else {
        let safe = sanitize_file_stem(stem.as_str());
        join(safe.as_str(), ".omf")
    }
}

/// What is left of a text is one stretch of it.
proof fn lemma_trimmed_part(s: Seq<char>)
    ensures
        exists|from: int, to: int| 0 <= from <= to <= s.len() && trimmed(s) == #[trigger] s.subrange(from, to),
{
    lemma_trimmed_start_part(s);
    let from = choose|from: int| 0 <= from <= s.len() && trimmed_start(s) == #[trigger] s.skip(from);
    let rest = s.skip(from);
    lemma_trimmed_end_part(rest);
    let len = choose|len: int| 0 <= len <= rest.len() && trimmed_end(rest) == #[trigger] rest.take(len);
    assert(rest.take(len) =~= s.subrange(from, from + len));
}

proof fn lemma_trimmed_start_part(s: Seq<char>)
    ensures
        exists|from: int| 0 <= from <= s.len() && trimmed_start(s) == #[trigger] s.skip(from),
    decreases s.len(),
{
    if s.len() > 0 && white(s[0]) {
        let rest = s.drop_first();
        lemma_trimmed_start_part(rest);
        let from = choose|from: int| 0 <= from <= rest.len() && trimmed_start(rest) == #[trigger] rest.skip(from);
        assert(rest.skip(from) =~= s.skip(from + 1));
    } else {
        assert(s.skip(0) =~= s);
    }
}

proof fn lemma_trimmed_end_part(s: Seq<char>)
    ensures
        exists|len: int| 0 <= len <= s.len() && trimmed_end(s) == #[trigger] s.take(len),
    decreases s.len(),
{
    if s.len() > 0 && white(s.last()) {
        let rest = s.drop_last();
        lemma_trimmed_end_part(rest);
        let len = choose|len: int| 0 <= len <= rest.len() && trimmed_end(rest) == #[trigger] rest.take(len);
        assert(rest.take(len) =~= s.take(len));
    } else {
        assert(s.take(s.len() as int) =~= s);
    }
}

/// The stem of a file is not empty, and every character of it can stand in a
/// file name on every platform.
pub proof fn law_file_stem_is_portable(name: Seq<char>)
    ensures
        file_stem_for(name).len() > 0,
        forall|i: int| 0 <= i < file_stem_for(name).len() ==> !invalid_in_file_name(#[trigger] file_stem_for(name)[i]),
{
    let c = cleaned(trimmed(name));
    lemma_trimmed_part(c);
    reveal_strlit("layer");
    let (from, to) = choose|from: int, to: int| 0 <= from <= to <= c.len() && trimmed(c) == #[trigger] c.subrange(from, to);
    assert forall|i: int| 0 <= i < file_stem_for(name).len() implies !invalid_in_file_name(#[trigger] file_stem_for(name)[i]) by {
        if trimmed(c).len() > 0 {
            assert(trimmed(c)[i] == c[from + i]);
        }
    }
}

proof fn lemma_unscored_chars(s: Seq<char>, ok: spec_fn(char) -> bool)
    requires
        forall|i: int| 0 <= i < s.len() ==> ok(#[trigger] s[i]),
    ensures
        forall|i: int| 0 <= i < unscored_start(s).len() ==> ok(#[trigger] unscored_start(s)[i]),
        forall|i: int| 0 <= i < unscored_end(s).len() ==> ok(#[trigger] unscored_end(s)[i]),
    decreases s.len(),
{
    if s.len() > 0 {
        lemma_unscored_chars(s.drop_first(), ok);
        lemma_unscored_chars(s.drop_last(), ok);
        if s[0] == '_' {
            assert(unscored_start(s) == unscored_start(s.drop_first()));
        } else {
            assert(unscored_start(s) == s);
        }
        if s.last() == '_' {
            assert(unscored_end(s) == unscored_end(s.drop_last()));
        } else {
            assert(unscored_end(s) == s);
        }
    } else {
        assert(unscored_start(s) == s);
        assert(unscored_end(s) == s);
    }
}

/// The stem of an exported project is not empty, and holds ASCII letters,
/// digits, `-` and `_` only.
pub proof fn law_export_stem_is_plain(name: Seq<char>)
    ensures
        export_stem(name).len() > 0,
        forall|i: int|
            0 <= i < export_stem(name).len() ==> ascii_alphanumeric(#[trigger] export_stem(name)[i]) || export_stem(name)[i] == '-' || export_stem(name)[i]
                == '_',
{
    let ok = |c: char| ascii_alphanumeric(c) || c == '-' || c == '_';
    let p = plain_ascii(name);
    assert forall|i: int| 0 <= i < p.len() implies ok(#[trigger] p[i]) by {
    }
    lemma_unscored_chars(p, ok);
    lemma_unscored_chars(unscored_start(p), ok);
    reveal_strlit("incline_design_project");
    assert forall|i: int| 0 <= i < export_stem(name).len() implies ascii_alphanumeric(#[trigger] export_stem(name)[i]) || export_stem(name)[i] == '-'
        || export_stem(name)[i] == '_' by {
        if unscored(p).len() > 0 {
            assert(ok(unscored(p)[i]));
        }
    }
}

/// The name of a browser project's file ends in the extension of project
/// files, and every character before it can stand in a file name.
pub proof fn law_project_file_name(name: Seq<char>)
    ensures
        ends_in_omf(project_file_name(name)),
        forall|i: int| 0 <= i < project_file_name(name).len() ==> !invalid_in_file_name(#[trigger] project_file_name(name)[i]),
{
    reveal_strlit(".omf");
    reveal_strlit("Project");
    let stem = without_omf(trimmed(name));
    law_file_stem_is_portable(stem);
    let full = project_file_name(name);
    let head = if stem.len() == 0 {
        "Project"@
    } else {
        file_stem_for(stem)
    };
    assert(full == head + ".omf"@);
    assert(full.len() == head.len() + 4);
    assert forall|i: int| 0 <= i < full.len() implies !invalid_in_file_name(#[trigger] full[i]) by {
        if i < head.len() {
            assert(full[i] == head[i]);
        } else {
            assert(full[i] == ".omf"@[i - head.len()]);
        }
    }
}

/// The name with a number behind it.
pub open spec fn numbered(name: Seq<char>, k: int) -> Seq<char> {
    name + seq![' '] + decimal_digits(k as nat)
}

/// The name is among those taken.
pub open spec fn is_taken(taken: Seq<Seq<char>>, name: Seq<char>) -> bool {
    taken.contains(name)
}

/// The least number from `k` on that makes the name free, `left` of them tried.
pub open spec fn free_number(taken: Seq<Seq<char>>, name: Seq<char>, k: int, left: nat) -> int
    decreases left,
{
    if left == 0 || !is_taken(taken, numbered(name, k)) {
        k
    } else {
        free_number(taken, name, k + 1, (left - 1) as nat)
    }
}

/// The name itself where it is free, else with the least number from two on
/// behind it that makes it so.
pub open spec fn unique_name(taken: Seq<Seq<char>>, name: Seq<char>) -> Seq<char> {
    if is_taken(taken, name) {
        numbered(name, free_number(taken, name, 2, taken.len()))
    } else {
        name
    }
}

proof fn lemma_digit_char(a: nat, b: nat)
    requires
        a < 10,
        b < 10,
        digit_char(a) == digit_char(b),
    ensures
        a == b,
{
}

/// Different numbers are written differently.
pub proof fn lemma_decimal_injective(a: nat, b: nat)
    requires
        decimal_digits(a) == decimal_digits(b),
    ensures
        a == b,
    decreases a,
{
    let x = decimal_digits(a);
    let y = decimal_digits(b);
    assert(x.last() == digit_char(a % 10));
    assert(y.last() == digit_char(b % 10));
    lemma_digit_char(a % 10, b % 10);
    lemma_decimal_len(a);
    lemma_decimal_len(b);
    if a >= 10 && b >= 10 {
        assert(x.drop_last() =~= decimal_digits(a / 10));
        assert(y.drop_last() =~= decimal_digits(b / 10));
        lemma_decimal_injective(a / 10, b / 10);
    }
}

proof fn lemma_decimal_len(a: nat)
    ensures
        decimal_digits(a).len() >= 1,
        a >= 10 ==> decimal_digits(a).len() >= 2,
    decreases a,
{
    if a >= 10 {
        lemma_decimal_len(a / 10);
    }
}

proof fn lemma_numbered_injective(name: Seq<char>, a: int, b: int)
    requires
        0 <= a,
        0 <= b,
        numbered(name, a) == numbered(name, b),
    ensures
        a == b,
{
    let n = name.len() + 1;
    assert(numbered(name, a).skip(n as int) =~= decimal_digits(a as nat));
    assert(numbered(name, b).skip(n as int) =~= decimal_digits(b as nat));
    lemma_decimal_injective(a as nat, b as nat);
}

/// The numbered names from `k` on, `n` of them.
spec fn numbered_names(name: Seq<char>, k: int, n: nat) -> Set<Seq<char>>
    decreases n,
{
    if n == 0 {
        Set::empty()
    } else {
        numbered_names(name, k, (n - 1) as nat).insert(numbered(name, k + n - 1))
    }
}

proof fn lemma_numbered_names(name: Seq<char>, k: int, n: nat)
    requires
        0 <= k,
    ensures
        numbered_names(name, k, n).finite(),
        numbered_names(name, k, n).len() == n,
        forall|s: Seq<char>| numbered_names(name, k, n).contains(s) ==> exists|i: int| 0 <= i < n && s == #[trigger] numbered(name, k + i),
    decreases n,
{
    if n > 0 {
        let m = (n - 1) as nat;
        lemma_numbered_names(name, k, m);
        let before = numbered_names(name, k, m);
        let last = numbered(name, k + m);
        if before.contains(last) {
            let i = choose|i: int| 0 <= i < m && last == #[trigger] numbered(name, k + i);
            lemma_numbered_injective(name, k + i, k + m);
        }
        assert forall|s: Seq<char>| numbered_names(name, k, n).contains(s) implies exists|i: int| 0 <= i < n && s == #[trigger] numbered(name, k + i) by {
            if s == last {
                assert(s == numbered(name, k + m));
            } else {
                assert(before.contains(s));
                let i = choose|i: int| 0 <= i < m && s == #[trigger] numbered(name, k + i);
                assert(s == numbered(name, k + i));
            }
        }
    }
}

/// The number found is the least that is free.
pub proof fn lemma_free_number(taken: Seq<Seq<char>>, name: Seq<char>, k: int, left: nat)
    ensures
        k <= free_number(taken, name, k, left) <= k + left,
        forall|i: int| k <= i < free_number(taken, name, k, left) ==> is_taken(taken, #[trigger] numbered(name, i)),
        free_number(taken, name, k, left) < k + left ==> !is_taken(taken, numbered(name, free_number(taken, name, k, left))),
    decreases left,
{
    if left > 0 && is_taken(taken, numbered(name, k)) {
        lemma_free_number(taken, name, k + 1, (left - 1) as nat);
    }
}

/// The name that is chosen is free.
pub proof fn law_unique_name_is_free(taken: Seq<Seq<char>>, name: Seq<char>)
    ensures
        !is_taken(taken, unique_name(taken, name)),
{
    if is_taken(taken, name) {
        let n = taken.len();
        let k = free_number(taken, name, 2, n);
        lemma_free_number(taken, name, 2, n);
        if k == 2 + n && is_taken(taken, numbered(name, k)) {
            let all = numbered_names(name, 2, n + 1);
            lemma_numbered_names(name, 2, n + 1);
            let have = taken.to_set();
            assert forall|s: Seq<char>| all.contains(s) implies have.contains(s) by {
                let i = choose|i: int| 0 <= i < n + 1 && s == #[trigger] numbered(name, 2 + i);
                if i < n {
                    assert(is_taken(taken, numbered(name, 2 + i)));
                }
            }
            vstd::seq_lib::seq_to_set_is_finite(taken);
            vstd::set_lib::lemma_len_subset(all, have);
            taken.lemma_cardinality_of_set();
        }
    }
}

/// The texts of a list.
pub open spec fn texts(names: Seq<String>) -> Seq<Seq<char>> {
    names.map_values(|s: String| s@)
}

fn is_name_taken(taken: &Vec<String>, name: &str) -> (r: bool)
    ensures
        r == is_taken(texts(taken@), name@),
{
    let mut i: usize = 0;
    while i < taken.len()
        invariant
            i <= taken.len(),
            forall|j: int| 0 <= j < i ==> (#[trigger] taken@[j])@ != name@,
        decreases taken.len() - i,
    {
        if same_text(taken[i].as_str(), name) {
            assert(texts(taken@)[i as int] == name@);
            return true;
        }
        i += 1;
    }
    proof {
        if texts(taken@).contains(name@) {
            let j = choose|j: int| 0 <= j < texts(taken@).len() && texts(taken@)[j] == name@;
            assert(taken@[j]@ == name@);
        }
    }
    false
}

/// The name itself where it is free, else with a number behind it.
pub fn make_unique(taken: &Vec<String>, name: &str) -> (r: String)
    ensures
        r@ == unique_name(texts(taken@), name@),
{
    if !is_name_taken(taken, name) {
        return name.to_owned();
    }
    let n: usize = taken.len();
    let ghost names = texts(taken@);
    let mut tried: usize = 0;
    loop
        invariant
            tried <= n,
            n == taken@.len(),
            names == texts(taken@),
            is_taken(names, name@),
            free_number(names, name@, 2, names.len()) == free_number(names, name@, 2 + tried, (n - tried) as nat),
        decreases n - tried,
    {
        proof {
            reveal_strlit(" ");
            assert(" "@ =~= seq![' ']);
        }
        let digits = decimal(tried as u128 + 2);
        let candidate = join3(name, " ", digits.as_str());
        assert(candidate@ =~= numbered(name@, 2 + tried));
        if tried == n || !is_name_taken(taken, candidate.as_str()) {
            return candidate;
        }
        tried += 1;
    }
}

/// The text ends in the extension of project files, in lower case.
pub open spec fn ends_in_lower_omf(s: Seq<char>) -> bool {
    let n = s.len();
    n >= 4 && s[n - 4] == '.' && s[n - 3] == 'o' && s[n - 2] == 'm' && s[n - 1] == 'f'
}

/// The text without the extensions of project files at its end.
pub open spec fn recovery_stem(s: Seq<char>) -> Seq<char>
    decreases s.len(),
{
    if ends_in_lower_omf(s) {
        recovery_stem(s.take(s.len() - 4))
    } else {
        s
    }
}

/// The name of the file that a project is rescued to.
pub open spec fn recovery_name(name: Seq<char>, seconds: u64, runtime_id: u32) -> Seq<char> {
    recovery_stem(name) + "-"@ + decimal_digits(seconds as nat) + "-"@ + decimal_digits(runtime_id as nat) + ".recovery.omf"@
}

/// The name of the file that a project is rescued to at a time.
pub fn recovery_file_name(name: &str, seconds: u64, runtime_id: u32) -> (r: String)
    ensures
        r@ == recovery_name(name@, seconds, runtime_id),
{
    let mut n: usize = name.unicode_len();
    assert(name@.take(n as int) =~= name@);
    while n >= 4 && name.get_char(n - 4) == '.' && name.get_char(n - 3) == 'o' && name.get_char(n - 2) == 'm' && name.get_char(n - 1) == 'f'
        invariant
            n <= name@.len(),
            recovery_stem(name@) == recovery_stem(name@.take(n as int)),
        decreases n,
    {
        assert(name@.take(n as int).take(n - 4) =~= name@.take(n - 4));
        n = n - 4;
    }
    let mut stem = String::new();
    let mut i: usize = 0;
    while i < n
        invariant
            i <= n <= name@.len(),
            stem@ == name@.take(i as int),
        decreases n - i,
    {
        stem.push(name.get_char(i));
        i += 1;
        assert(stem@ =~= name@.take(i as int));
    }
    stem.append("-");
    stem.append(decimal(seconds as u128).as_str());
    stem.append("-");
    stem.append(decimal(runtime_id as u128).as_str());
    stem.append(".recovery.omf");
    stem
}

} // verus!

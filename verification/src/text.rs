//! Character sequences: whitespace, decimal and hexadecimal digits, and conversions between
//! strings and vectors of characters.

pub mod laws;

use vstd::prelude::*;
use vstd::utf8::{decode_utf8, valid_utf8};

verus! {

/// `String::push` appends the given character to the end of the string.
pub assume_specification[ String::push ](s: &mut String, c: char)
    ensures
        final(s)@ == old(s)@.push(c),
;

/// The text of the error that `std::str::from_utf8` gives for bytes that are not UTF-8.
pub uninterp spec fn utf8_error_text(bytes: Seq<u8>) -> Seq<char>;

/// `std::str::from_utf8`: the text of bytes that are UTF-8, otherwise the text of its error.
#[verifier::external_body]
pub(crate) fn decode_text(bytes: &[u8]) -> (r: Result<&str, String>)
    ensures
        match r {
            Ok(s) => valid_utf8(bytes@) && s@ == decode_utf8(bytes@),
            Err(e) => !valid_utf8(bytes@) && e@ == utf8_error_text(bytes@),
        },
{
    std::str::from_utf8(bytes).map_err(|e| e.to_string())
}

/// The characters with the Unicode property `White_Space`.
pub open spec fn white_space(c: char) -> bool {
    ||| 0x9 <= c as u32 <= 0xd
    ||| c as u32 == 0x20
    ||| c as u32 == 0x85
    ||| c as u32 == 0xa0
    ||| c as u32 == 0x1680
    ||| 0x2000 <= c as u32 <= 0x200a
    ||| c as u32 == 0x2028
    ||| c as u32 == 0x2029
    ||| c as u32 == 0x202f
    ||| c as u32 == 0x205f
    ||| c as u32 == 0x3000
}

/// Tells whether a character has the Unicode property `White_Space`.
pub fn is_white_space(c: char) -> (r: bool)
    ensures
        r == white_space(c),
{
    let u: u32 = c as u32;
    (0x9 <= u && u <= 0xd) || u == 0x20 || u == 0x85 || u == 0xa0 || u == 0x1680 || (0x2000 <= u
        && u <= 0x200a) || u == 0x2028 || u == 0x2029 || u == 0x202f || u == 0x205f || u == 0x3000
}

/// A character sequence without its leading whitespace.
pub open spec fn trim_start(s: Seq<char>) -> Seq<char>
    decreases s.len(),
{
    if s.len() > 0 && white_space(s[0]) {
        trim_start(s.drop_first())
    } else {
        s
    }
}

/// A character sequence without its trailing whitespace.
pub open spec fn trim_end(s: Seq<char>) -> Seq<char>
    decreases s.len(),
{
    if s.len() > 0 && white_space(s.last()) {
        trim_end(s.drop_last())
    } else {
        s
    }
}

/// A character sequence without leading and trailing whitespace.
pub open spec fn trimmed(s: Seq<char>) -> Seq<char> {
    trim_end(trim_start(s))
}

/// The characters of a string, in order.
pub fn chars_of(s: &str) -> (r: Vec<char>)
    ensures
        r@ == s@,
{
    let mut out: Vec<char> = Vec::new();
    for c in iter: s.chars()
        invariant
            out@ == s@.take(iter.index() as int),
            iter.seq() == s@,
    {
        out.push(c);
        assert(s@.take(iter.index() + 1) =~= s@.take(iter.index() as int).push(s@[iter.index() as int]));
    }
    assert(s@.take(s@.len() as int) =~= s@);
    out
}

/// The string made of the given characters.
pub fn string_of(chars: &[char]) -> (r: String)
    ensures
        r@ == chars@,
{
    let mut out: String = String::new();
    for i in 0..chars.len()
        invariant
            out@ == chars@.take(i as int),
    {
        out.push(chars[i]);
        assert(chars@.take(i + 1) =~= chars@.take(i as int).push(chars@[i as int]));
    }
    assert(chars@.take(chars@.len() as int) =~= chars@);
    out
}

/// Removes leading and trailing whitespace.
pub fn trim(chars: &[char]) -> (r: Vec<char>)
    ensures
        r@ == trimmed(chars@),
{
    let mut start: usize = 0;
    assert(chars@.skip(0) =~= chars@);
    while start < chars.len() && is_white_space(chars[start])
        invariant
            start <= chars@.len(),
            trim_start(chars@) == trim_start(chars@.skip(start as int)),
        decreases chars@.len() - start,
    {
        assert(chars@.skip(start as int).drop_first() =~= chars@.skip(start + 1));
        start += 1;
    }
    assert(trim_start(chars@) == chars@.skip(start as int));
    let mut end: usize = chars.len();
    let ghost rest = chars@.skip(start as int);
    assert(rest.take(end - start) =~= rest);
    while end > start && is_white_space(chars[end - 1])
        invariant
            start <= end <= chars@.len(),
            rest == chars@.skip(start as int),
            trim_end(rest) == trim_end(rest.take(end - start)),
        decreases end,
    {
        assert(rest.take(end - start).drop_last() =~= rest.take(end - start - 1));
        end -= 1;
    }
    assert(trim_end(rest) == rest.take(end - start));
    let mut out: Vec<char> = Vec::new();
    let mut i: usize = start;
    while i < end
        invariant
            start <= i <= end <= chars@.len(),
            rest == chars@.skip(start as int),
            out@ == rest.take(i - start),
        decreases end - i,
    {
        out.push(chars[i]);
        assert(rest.take(i + 1 - start) =~= rest.take(i - start).push(rest[i - start]));
        i += 1;
    }
    out
}

/// The value of a hexadecimal digit.
pub open spec fn hex_value(c: char) -> Option<u8> {
    if '0' <= c <= '9' {
        Some((c as u32 - 48) as u8)
    } else if 'a' <= c <= 'f' {
        Some((c as u32 - 87) as u8)
    } else if 'A' <= c <= 'F' {
        Some((c as u32 - 55) as u8)
    } else {
        None
    }
}

/// Reads one hexadecimal digit.
pub fn hex_digit_value(c: char) -> (r: Option<u8>)
    ensures
        r == hex_value(c),
{
    let u: u32 = c as u32;
    if '0' <= c && c <= '9' {
        Some((u - 48) as u8)
    } else if 'a' <= c && c <= 'f' {
        Some((u - 87) as u8)
    } else if 'A' <= c && c <= 'F' {
        Some((u - 55) as u8)
    } else {
        None
    }
}

/// The lower-case hexadecimal digit of a value below sixteen.
pub open spec fn hex_char(v: int) -> char {
    if v < 10 {
        (48 + v) as char
    } else {
        (87 + v) as char
    }
}

/// Writes one lower-case hexadecimal digit.
pub fn hex_digit(v: u8) -> (r: char)
    requires
        v < 16,
    ensures
        r == hex_char(v as int),
{
    if v < 10 {
        (48 + v) as char
    } else {
        (87 + v) as char
    }
}

/// The decimal digits of a number, without leading zeros.
pub open spec fn decimal(n: nat) -> Seq<char>
    decreases n,
{
    if n < 10 {
        seq![(48 + n) as char]
    } else {
        decimal(n / 10).push((48 + n % 10) as char)
    }
}

/// Writes a number in decimal.
pub fn decimal_chars(n: u64) -> (r: Vec<char>)
    ensures
        r@ == decimal(n as nat),
{
    wide_decimal_chars(n as u128)
}

/// Writes a wide number in decimal.
pub fn wide_decimal_chars(n: u128) -> (r: Vec<char>)
    ensures
        r@ == decimal(n as nat),
    decreases n,
{
    let digit: char = (48 + (n % 10) as u8) as char;
    if n < 10 {
        let mut out: Vec<char> = Vec::new();
        out.push(digit);
        assert(out@ =~= decimal(n as nat));
        out
    } else {
        let mut out: Vec<char> = wide_decimal_chars(n / 10);
        out.push(digit);
        out
    }
}

/// Decimal digits are ASCII.
pub proof fn lemma_decimal_ascii(n: nat)
    ensures
        forall|i: int| 0 <= i < decimal(n).len() ==> '0' <= #[trigger] decimal(n)[i] <= '9',
    decreases n,
{
    if n >= 10 {
        lemma_decimal_ascii(n / 10);
        assert(48 <= 48 + n % 10 <= 57);
        assert forall|i: int| 0 <= i < decimal(n).len() implies '0' <= #[trigger] decimal(n)[i]
            <= '9' by {
            if i < decimal(n / 10).len() {
                assert(decimal(n)[i] == decimal(n / 10)[i]);
            }
        }
    }
}

/// The pieces of a text between separators.
pub open spec fn split(s: Seq<char>, sep: char) -> Seq<Seq<char>>
    decreases s.len(),
{
    if s.len() == 0 {
        seq![Seq::<char>::empty()]
    } else {
        let front = split(s.drop_last(), sep);
        if s.last() == sep {
            front.push(Seq::empty())
        } else {
            front.drop_last().push(front.last().push(s.last()))
        }
    }
}

/// Splits characters at a separator.
pub fn split_chars(chars: &Vec<char>, sep: char) -> (r: Vec<Vec<char>>)
    ensures
        char_lists(r@) == split(chars@, sep),
{
    let mut out: Vec<Vec<char>> = Vec::new();
    let mut piece: Vec<char> = Vec::new();
    let mut i: usize = 0;
    assert(chars@.take(0) =~= Seq::<char>::empty());
    assert(split(chars@.take(0), sep) =~= char_lists(out@).push(piece@));
    while i < chars.len()
        invariant
            i <= chars@.len(),
            split(chars@.take(i as int), sep) == char_lists(out@).push(piece@),
        decreases chars@.len() - i,
    {
        let c: char = chars[i];
        let ghost done = char_lists(out@);
        let ghost before = piece@;
        proof {
            assert(chars@.take(i + 1).drop_last() =~= chars@.take(i as int));
            assert(chars@.take(i + 1).last() == c);
            assert(done.push(before).drop_last() =~= done);
        }
        if c == sep {
            out.push(piece);
            piece = Vec::new();
            assert(char_lists(out@) =~= done.push(before));
            assert(split(chars@.take(i + 1), sep) =~= char_lists(out@).push(piece@));
        } else {
            piece.push(c);
            assert(split(chars@.take(i + 1), sep) =~= done.push(before.push(c)));
        }
        i += 1;
    }
    assert(chars@.take(chars@.len() as int) =~= chars@);
    let ghost done = char_lists(out@);
    let ghost last = piece@;
    out.push(piece);
    assert(char_lists(out@) =~= done.push(last));
    out
}

/// The names in a split path: empty ones and dots are left out, but for a dot at the start.
pub open spec fn path_names(pieces: Seq<Seq<char>>) -> Seq<Seq<char>>
    decreases pieces.len(),
{
    if pieces.len() == 0 {
        Seq::empty()
    } else {
        let front = path_names(pieces.drop_last());
        let name = pieces.last();
        if name.len() == 0 || (name == seq!['.'] && pieces.len() > 1) {
            front
        } else {
            front.push(name)
        }
    }
}

/// The components of a Unix path: a slash for the root of an absolute one, and the names.
pub open spec fn path_parts(path: Seq<char>) -> Seq<Seq<char>> {
    let names = path_names(split(path, '/'));
    if path.len() > 0 && path[0] == '/' {
        seq![seq!['/']] + names
    } else {
        names
    }
}

/// Whether a path begins with the components of another.
pub open spec fn lies_within(path: Seq<char>, base: Seq<char>) -> bool {
    path_parts(base).is_prefix_of(path_parts(path))
}

/// Takes a Unix path apart.
fn path_components(path: &str) -> (r: Vec<Vec<char>>)
    ensures
        char_lists(r@) == path_parts(path@),
{
    let chars: Vec<char> = chars_of(path);
    let mut out: Vec<Vec<char>> = Vec::new();
    let absolute: bool = chars.len() > 0 && chars[0] == '/';
    if absolute {
        let mut root: Vec<char> = Vec::new();
        root.push('/');
        assert(root@ =~= seq!['/']);
        out.push(root);
    }
    let ghost root = char_lists(out@);
    assert(root =~= (if absolute {
        seq![seq!['/']]
    } else {
        Seq::<Seq<char>>::empty()
    }));
    let pieces: Vec<Vec<char>> = split_chars(&chars, '/');
    let ghost all = char_lists(pieces@);
    assert(all.take(0) =~= Seq::<Seq<char>>::empty());
    assert(root + path_names(all.take(0)) =~= root);
    let mut i: usize = 0;
    while i < pieces.len()
        invariant
            i <= pieces@.len() == all.len(),
            all == char_lists(pieces@),
            char_lists(out@) == root + path_names(all.take(i as int)),
        decreases pieces@.len() - i,
    {
        let piece: &Vec<char> = &pieces[i];
        let ghost done = char_lists(out@);
        proof {
            assert(all.take(i + 1).drop_last() =~= all.take(i as int));
            assert(all.take(i + 1).last() == piece@);
            assert(piece@ == seq!['.'] <==> piece@.len() == 1 && piece@[0] == '.') by {
                if piece@.len() == 1 && piece@[0] == '.' {
                    assert(piece@ =~= seq!['.']);
                }
            }
        }
        if !(piece.len() == 0 || (piece.len() == 1 && piece[0] == '.' && i > 0)) {
            out.push(piece.clone());
            assert(out@.last()@ =~= piece@);
            assert(char_lists(out@) =~= done.push(piece@));
            assert(char_lists(out@) =~= root + path_names(all.take(i + 1)));
        }
        i += 1;
    }
    assert(all.take(all.len() as int) =~= all);
    assert(char_lists(out@) =~= path_parts(path@));
    out
}

/// Tells whether a Unix path begins with the components of another.
pub fn path_starts_with(path: &str, base: &str) -> (r: bool)
    ensures
        r == lies_within(path@, base@),
{
    let whole: Vec<Vec<char>> = path_components(path);
    let start: Vec<Vec<char>> = path_components(base);
    let ghost parts = path_parts(path@);
    let ghost first = path_parts(base@);
    if start.len() > whole.len() {
        return false;
    }
    let mut i: usize = 0;
    while i < start.len()
        invariant
            i <= start@.len() <= whole@.len(),
            char_lists(whole@) == parts,
            char_lists(start@) == first,
            parts == path_parts(path@),
            first == path_parts(base@),
            forall|j: int| 0 <= j < i ==> first[j] == parts[j],
        decreases start@.len() - i,
    {
        assert(first[i as int] == start@[i as int]@);
        assert(parts[i as int] == whole@[i as int]@);
        if !same_chars(&start[i], &whole[i]) {
            assert(parts.subrange(0, first.len() as int)[i as int] != first[i as int]);
            return false;
        }
        i += 1;
    }
    assert(parts.subrange(0, first.len() as int) =~= first);
    true
}

/// Tells whether two lists hold the same characters.
fn same_chars(a: &Vec<char>, b: &Vec<char>) -> (r: bool)
    ensures
        r == (a@ == b@),
{
    if a.len() != b.len() {
        return false;
    }
    let mut i: usize = 0;
    while i < a.len()
        invariant
            i <= a@.len() == b@.len(),
            forall|j: int| 0 <= j < i ==> a@[j] == b@[j],
        decreases a@.len() - i,
    {
        if a[i] != b[i] {
            assert(a@[i as int] != b@[i as int]);
            return false;
        }
        i += 1;
    }
    assert(a@ =~= b@);
    true
}

/// What lists of characters hold.
pub open spec fn char_lists(v: Seq<Vec<char>>) -> Seq<Seq<char>> {
    v.map_values(|x: Vec<char>| x@)
}

/// What strings hold.
pub open spec fn texts(v: Seq<String>) -> Seq<Seq<char>> {
    v.map_values(|x: String| x@)
}

/// A copy of a list of strings.
pub fn copy_strings(v: &Vec<String>) -> (r: Vec<String>)
    ensures
        texts(r@) == texts(v@),
{
    let mut out: Vec<String> = Vec::new();
    let mut i: usize = 0;
    while i < v.len()
        invariant
            i <= v@.len(),
            texts(out@) == texts(v@).take(i as int),
        decreases v@.len() - i,
    {
        let ghost before = texts(out@);
        out.push(v[i].clone());
        assert(texts(out@) =~= before.push(v@[i as int]@));
        assert(texts(v@).take(i + 1) =~= texts(v@).take(i as int).push(texts(v@)[i as int]));
        i += 1;
    }
    assert(texts(v@).take(v@.len() as int) =~= texts(v@));
    out
}

/// Tells whether two lists hold the same strings.
pub fn same_strings(a: &Vec<String>, b: &Vec<String>) -> (r: bool)
    ensures
        r == (texts(a@) == texts(b@)),
{
    assert(texts(a@).len() == a@.len() && texts(b@).len() == b@.len());
    if a.len() != b.len() {
        return false;
    }
    let mut i: usize = 0;
    while i < a.len()
        invariant
            i <= a@.len(),
            a@.len() == b@.len(),
            forall|j: int| 0 <= j < i ==> #[trigger] texts(a@)[j] == texts(b@)[j],
        decreases a@.len() - i,
    {
        assert(texts(a@)[i as int] == a@[i as int]@);
        assert(texts(b@)[i as int] == b@[i as int]@);
        if !spells(&chars_of(a[i].as_str()), b[i].as_str()) {
            return false;
        }
        i += 1;
    }
    assert(texts(a@) =~= texts(b@));
    true
}

/// An ASCII letter in lower case; other characters stay as they are.
pub open spec fn lower(c: char) -> char {
    if 'A' <= c <= 'Z' {
        (c as u32 + 32) as char
    } else {
        c
    }
}

/// Text with its ASCII letters in lower case.
pub open spec fn lowered(s: Seq<char>) -> Seq<char> {
    s.map_values(|c: char| lower(c))
}

/// Turns an ASCII letter to lower case.
pub fn lower_char(c: char) -> (r: char)
    ensures
        r == lower(c),
{
    if 'A' <= c && c <= 'Z' {
        ((c as u8) + 32) as char
    } else {
        c
    }
}

/// Turns ASCII letters to lower case.
pub fn lower_chars(chars: &Vec<char>) -> (r: Vec<char>)
    ensures
        r@ == lowered(chars@),
{
    let mut out: Vec<char> = Vec::new();
    let mut i: usize = 0;
    while i < chars.len()
        invariant
            i <= chars@.len(),
            out@ == lowered(chars@).take(i as int),
        decreases chars@.len() - i,
    {
        out.push(lower_char(chars[i]));
        assert(out@ =~= lowered(chars@).take(i + 1));
        i += 1;
    }
    assert(lowered(chars@).take(chars@.len() as int) =~= lowered(chars@));
    out
}

/// Tells whether characters spell a string.
pub fn spells(chars: &Vec<char>, s: &str) -> (r: bool)
    ensures
        r == (chars@ == s@),
{
    same_chars(chars, &chars_of(s))
}

/// Joins two pieces of text.
pub fn joined(a: &str, b: &str) -> (r: String)
    ensures
        r@ == a@ + b@,
{
    let mut out: String = String::new();
    out.append(a);
    out.append(b);
    assert(out@ =~= a@ + b@);
    out
}

} // verus!

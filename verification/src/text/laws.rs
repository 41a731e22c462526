//! What holds of numbers, words and paths that are written as characters.

use crate::text::{
    decimal, hex_char, hex_value, lies_within, lower, lowered, path_names, path_parts, split,
    trim_end, trim_start, trimmed, white_space,
};
use vstd::prelude::*;

verus! {

/// The number that decimal digits stand for.
pub open spec fn reading(s: Seq<char>) -> int
    decreases s.len(),
{
    if s.len() == 0 {
        0
    } else {
        10 * reading(s.drop_last()) + (s.last() as int - '0' as int)
    }
}

/// A decimal number consists of digits, reads as the number, and starts with a zero only where it
/// is nothing but that.
pub proof fn law_decimal_numbers_read_back(n: nat)
    ensures
        decimal(n).len() > 0,
        forall|i: int| 0 <= i < decimal(n).len() ==> '0' <= #[trigger] decimal(n)[i] <= '9',
        reading(decimal(n)) == n,
        decimal(n)[0] == '0' ==> n == 0,
        n < 10 ==> decimal(n).len() == 1,
    decreases n,
{
    reveal_with_fuel(reading, 2);
    if n >= 10 {
        law_decimal_numbers_read_back(n / 10);
        assert(decimal(n).drop_last() =~= decimal(n / 10));
        assert(decimal(n)[0] == decimal(n / 10)[0]);
    } else {
        assert(decimal(n) =~= seq![(48 + n) as char]);
        assert(decimal(n).drop_last() =~= Seq::<char>::empty());
    }
}

/// The decimal digits of a number, as bytes.
pub open spec fn written(n: nat) -> Seq<u8> {
    decimal(n).map_values(|c: char| c as u8)
}

/// Numbers of one and of two digits are written with these digits.
pub proof fn law_short_numbers(n: nat)
    requires
        n < 100,
    ensures
        n < 10 ==> written(n) == seq![(48 + n) as u8],
        n >= 10 ==> written(n) == seq![(48 + n / 10) as u8, (48 + n % 10) as u8],
{
    reveal_with_fuel(decimal, 3);
    if n < 10 {
        assert(written(n) =~= seq![(48 + n) as u8]);
    } else {
        assert(decimal(n) =~= seq![(48 + n / 10) as char, (48 + n % 10) as char]);
        assert(written(n) =~= seq![(48 + n / 10) as u8, (48 + n % 10) as u8]);
    }
}

/// Two numbers are never written alike.
pub proof fn law_decimal_numbers_are_told_apart(n: nat, m: nat)
    requires
        decimal(n) == decimal(m),
    ensures
        n == m,
{
    law_decimal_numbers_read_back(n);
    law_decimal_numbers_read_back(m);
}

/// The sixteen hexadecimal digits, in either case, stand for their values, and no other character
/// stands for one.
pub proof fn law_hexadecimal_digits(c: char)
    ensures
        '0' <= c <= '9' ==> hex_value(c) == Some((c as int - '0' as int) as u8),
        'a' <= c <= 'f' ==> hex_value(c) == Some((c as int - 'a' as int + 10) as u8),
        'A' <= c <= 'F' ==> hex_value(c) == Some((c as int - 'A' as int + 10) as u8),
        !('0' <= c <= '9') && !('a' <= c <= 'f') && !('A' <= c <= 'F') ==> hex_value(c) is None,
{
}

/// Hexadecimal digits are written in lower case, and read back as their values.
pub proof fn law_hexadecimal_digits_read_back(v: int)
    requires
        0 <= v < 16,
    ensures
        hex_value(hex_char(v)) == Some(v as u8),
        v < 10 ==> '0' <= hex_char(v) <= '9',
        v >= 10 ==> 'a' <= hex_char(v) <= 'f',
{
}

/// Only capital letters of ASCII have another lower case: it lies in the same place of the
/// alphabet.
pub proof fn law_lower_case(c: char)
    ensures
        'A' <= c <= 'Z' ==> lower(c) as int - 'a' as int == c as int - 'A' as int,
        !('A' <= c <= 'Z') ==> lower(c) == c,
        lower(lower(c)) == lower(c),
{
}

/// A text in lower case has the same length, character by character, and lowering it again changes
/// nothing.
pub proof fn law_lower_case_text(s: Seq<char>)
    ensures
        lowered(s).len() == s.len(),
        forall|i: int| 0 <= i < s.len() ==> #[trigger] lowered(s)[i] == lower(s[i]),
        lowered(lowered(s)) == lowered(s),
{
    assert forall|i: int| 0 <= i < s.len() implies #[trigger] lowered(lowered(s))[i] == lowered(
        s,
    )[i] by {
        law_lower_case(s[i]);
    }
    assert(lowered(lowered(s)) =~= lowered(s));
}

/// White space of ASCII is the blank, the tab, the line feed, the vertical tab, the form feed and
/// the carriage return; a space that does not break is white space too.
pub proof fn law_white_space(c: char)
    ensures
        c as int <= 0x7f ==> (white_space(c) <==> (c == ' ' || c == '\t' || c == '\n' || c == '\r'
            || c as int == 0xb || c as int == 0xc)),
        c as int == 0xa0 ==> white_space(c),
        c as int == 0x3000 ==> white_space(c),
        'a' <= c <= 'z' || 'A' <= c <= 'Z' || '0' <= c <= '9' || c == '#' || c == '=' || c == '-'
            ==> !white_space(c),
        0x4e00 <= c as int ==> !white_space(c),
{
}

proof fn lemma_trim_start(s: Seq<char>) -> (i: int)
    ensures
        0 <= i <= s.len(),
        trim_start(s) == s.skip(i),
        forall|k: int| 0 <= k < i ==> white_space(#[trigger] s[k]),
        i < s.len() ==> !white_space(s[i]),
    decreases s.len(),
{
    if s.len() > 0 && white_space(s[0]) {
        let j = lemma_trim_start(s.drop_first());
        assert(s.drop_first().skip(j) =~= s.skip(j + 1));
        assert forall|k: int| 0 <= k < j + 1 implies white_space(#[trigger] s[k]) by {
            if k > 0 {
                assert(s.drop_first()[k - 1] == s[k]);
            }
        }
        if j + 1 < s.len() {
            assert(s.drop_first()[j] == s[j + 1]);
        }
        j + 1
    } else {
        assert(s.skip(0) =~= s);
        0
    }
}

proof fn lemma_trim_end(s: Seq<char>) -> (j: int)
    ensures
        0 <= j <= s.len(),
        trim_end(s) == s.take(j),
        forall|k: int| j <= k < s.len() ==> white_space(#[trigger] s[k]),
        j > 0 ==> !white_space(s[j - 1]),
    decreases s.len(),
{
    if s.len() > 0 && white_space(s.last()) {
        let j = lemma_trim_end(s.drop_last());
        assert(s.drop_last().take(j) =~= s.take(j));
        assert forall|k: int| j <= k < s.len() implies white_space(#[trigger] s[k]) by {
            if k < s.len() - 1 {
                assert(s.drop_last()[k] == s[k]);
            }
        }
        if j > 0 {
            assert(s.drop_last()[j - 1] == s[j - 1]);
        }
        j
    } else {
        assert(s.take(s.len() as int) =~= s);
        s.len() as int
    }
}

/// Trimming leaves a stretch of the text: all before it and all behind it is white space, and it
/// neither starts nor ends with white space.
pub proof fn law_trimming_takes_white_space_at_the_ends(s: Seq<char>)
    ensures
        exists|i: int, j: int|
            {
                &&& 0 <= i <= j <= s.len()
                &&& trimmed(s) == #[trigger] s.subrange(i, j)
                &&& forall|k: int| 0 <= k < i ==> white_space(#[trigger] s[k])
                &&& forall|k: int| j <= k < s.len() ==> white_space(#[trigger] s[k])
            },
        trimmed(s).len() > 0 ==> !white_space(trimmed(s)[0]) && !white_space(trimmed(s).last()),
{
    let i = lemma_trim_start(s);
    let t = s.skip(i);
    let n = lemma_trim_end(t);
    let j = i + n;
    assert(t.take(n) =~= s.subrange(i, j));
    assert forall|k: int| j <= k < s.len() implies white_space(#[trigger] s[k]) by {
        assert(t[k - i] == s[k]);
    }
    if n > 0 {
        assert(trimmed(s)[0] == s[i]);
        assert(trimmed(s).last() == t[n - 1]);
    }
}

/// A text that neither starts nor ends with white space is left as it is.
pub proof fn law_trimming_keeps_plain_text(s: Seq<char>)
    requires
        s.len() > 0 ==> !white_space(s[0]) && !white_space(s.last()),
    ensures
        trimmed(s) == s,
{
    let i = lemma_trim_start(s);
    assert(i == 0) by {
        if i > 0 {
            assert(white_space(s[0]));
        }
    }
    assert(s.skip(0) =~= s);
}

/// Pieces of text with a character between each two.
pub open spec fn glued(pieces: Seq<Seq<char>>, sep: char) -> Seq<char>
    decreases pieces.len(),
{
    if pieces.len() == 0 {
        Seq::empty()
    } else if pieces.len() == 1 {
        pieces[0]
    } else {
        glued(pieces.drop_last(), sep).push(sep) + pieces.last()
    }
}

/// The pieces of a text hold no separator, and give the text again with a separator between each
/// two.
pub proof fn law_pieces_make_up_the_text(s: Seq<char>, sep: char)
    ensures
        split(s, sep).len() > 0,
        glued(split(s, sep), sep) == s,
        forall|i: int| 0 <= i < split(s, sep).len() ==> !(#[trigger] split(s, sep)[i]).contains(sep),
    decreases s.len(),
{
    if s.len() > 0 {
        let front = split(s.drop_last(), sep);
        let all = split(s, sep);
        law_pieces_make_up_the_text(s.drop_last(), sep);
        if s.last() == sep {
            assert(all.drop_last() =~= front);
            assert(glued(all, sep) =~= s);
            assert forall|i: int| 0 <= i < all.len() implies !(#[trigger] all[i]).contains(sep) by {
                if i < front.len() {
                    assert(all[i] == front[i]);
                }
            }
        } else {
            assert(all.drop_last() =~= front.drop_last());
            assert(all.last() == front.last().push(s.last()));
            if front.len() > 1 {
                assert(glued(all, sep) =~= glued(front, sep).push(s.last()));
            } else {
                assert(glued(all, sep) =~= glued(front, sep).push(s.last()));
            }
            assert(glued(all, sep) =~= s);
            assert forall|i: int| 0 <= i < all.len() implies !(#[trigger] all[i]).contains(sep) by {
                if i < front.len() - 1 {
                    assert(all[i] == front[i]);
                } else {
                    let old_last = front[front.len() - 1];
                    assert(!old_last.contains(sep));
                    if all[i].contains(sep) {
                        let k = choose|k: int| 0 <= k < all[i].len() && all[i][k] == sep;
                        assert(all[i][k] == sep);
                        if k < old_last.len() {
                            assert(old_last[k] == sep);
                        }
                    }
                }
            }
        }
    } else {
        assert(split(s, sep) =~= seq![Seq::<char>::empty()]);
        assert(glued(split(s, sep), sep) =~= s);
    }
}

/// A text without the separator is one piece.
pub proof fn law_text_without_separators_is_one_piece(s: Seq<char>, sep: char)
    requires
        !s.contains(sep),
    ensures
        split(s, sep) == seq![s],
    decreases s.len(),
{
    if s.len() > 0 {
        let t = s.drop_last();
        assert(s.last() != sep) by {
            if s.last() == sep {
                assert(s[s.len() - 1] == sep);
            }
        }
        assert(!t.contains(sep)) by {
            if t.contains(sep) {
                let k = choose|k: int| 0 <= k < t.len() && t[k] == sep;
                assert(s[k] == sep);
            }
        }
        law_text_without_separators_is_one_piece(t, sep);
        assert(t.push(s.last()) =~= s);
        assert(split(s, sep) =~= seq![s]);
    } else {
        assert(s =~= Seq::<char>::empty());
    }
}

/// A text is split at a separator into the pieces before it and the pieces behind it.
pub proof fn law_splitting_before_and_behind(a: Seq<char>, b: Seq<char>, sep: char)
    ensures
        split(a.push(sep) + b, sep) == split(a, sep) + split(b, sep),
    decreases b.len(),
{
    let s = a.push(sep) + b;
    if b.len() == 0 {
        assert(s =~= a.push(sep));
        assert(s.drop_last() =~= a);
        assert(split(s, sep) =~= split(a, sep) + split(b, sep));
    } else {
        assert(s.drop_last() =~= a.push(sep) + b.drop_last());
        assert(s.last() == b.last());
        law_splitting_before_and_behind(a, b.drop_last(), sep);
        law_pieces_make_up_the_text(b.drop_last(), sep);
        let front = split(b.drop_last(), sep);
        let whole = split(a, sep) + front;
        assert(whole.drop_last() =~= split(a, sep) + front.drop_last());
        assert(whole.last() == front.last());
        assert(split(s, sep) =~= split(a, sep) + split(b, sep));
    }
}

proof fn lemma_path_names_push(pieces: Seq<Seq<char>>, name: Seq<char>)
    requires
        pieces.len() > 0,
        name.len() > 0,
        name != seq!['.'],
    ensures
        path_names(pieces.push(name)) == path_names(pieces).push(name),
{
    assert(pieces.push(name).drop_last() =~= pieces);
}

/// A file lies within the directory that its path names before the last slash, and in no other
/// place than the path says: the parts of its path are those of the directory and its own name.
pub proof fn law_files_lie_within_their_directory(dir: Seq<char>, name: Seq<char>)
    requires
        dir.len() > 0,
        name.len() > 0,
        name != seq!['.'],
        !name.contains('/'),
    ensures
        path_parts(dir.push('/') + name) == path_parts(dir).push(name),
        lies_within(dir.push('/') + name, dir),
{
    let path = dir.push('/') + name;
    law_splitting_before_and_behind(dir, name, '/');
    law_text_without_separators_is_one_piece(name, '/');
    law_pieces_make_up_the_text(dir, '/');
    assert(split(path, '/') =~= split(dir, '/').push(name));
    lemma_path_names_push(split(dir, '/'), name);
    assert(path[0] == dir[0]);
    assert(path_parts(path) =~= path_parts(dir).push(name));
    assert(path_parts(dir).is_prefix_of(path_parts(path)));
}

/// Lying within a directory is reflexive and transitive, and two directories that hold one file lie
/// one within the other.
pub proof fn law_lying_within_is_an_order(a: Seq<char>, b: Seq<char>, c: Seq<char>)
    ensures
        lies_within(a, a),
        lies_within(a, b) && lies_within(b, c) ==> lies_within(a, c),
        lies_within(a, b) && lies_within(a, c) ==> lies_within(b, c) || lies_within(c, b),
        lies_within(a, b) ==> path_parts(b).len() <= path_parts(a).len(),
{
    let (x, y, z) = (path_parts(a), path_parts(b), path_parts(c));
    if y.is_prefix_of(x) && z.is_prefix_of(y) {
        assert forall|i: int| 0 <= i < z.len() implies z[i] == x[i] by {
            assert(z[i] == y[i]);
            assert(y[i] == x[i]);
        }
    }
    if y.is_prefix_of(x) && z.is_prefix_of(x) {
        if y.len() <= z.len() {
            assert forall|i: int| 0 <= i < y.len() implies y[i] == z[i] by {
                assert(y[i] == x[i]);
                assert(z[i] == x[i]);
            }
        } else {
            assert forall|i: int| 0 <= i < z.len() implies z[i] == y[i] by {
                assert(y[i] == x[i]);
                assert(z[i] == x[i]);
            }
        }
    }
}

/// A relative path lies within no absolute one, and an absolute path within no relative one but
/// the empty one.
pub proof fn law_absolute_and_relative_paths_do_not_mix(path: Seq<char>, base: Seq<char>)
    requires
        path.len() > 0,
        base.len() > 0,
        (path[0] == '/') != (base[0] == '/'),
        path_parts(base).len() > 0,
    ensures
        !lies_within(path, base),
{
    if lies_within(path, base) {
        let (x, y) = (path_parts(path), path_parts(base));
        assert(y[0] == x[0]);
        if base[0] == '/' {
            law_pieces_make_up_the_text(path, '/');
            lemma_names_hold_no_slash(split(path, '/'));
            assert(x[0] == seq!['/']);
            assert(x[0][0] == '/');
        } else {
            law_pieces_make_up_the_text(base, '/');
            lemma_names_hold_no_slash(split(base, '/'));
            assert(y[0] == seq!['/']);
            assert(y[0][0] == '/');
        }
    }
}

proof fn lemma_names_hold_no_slash(pieces: Seq<Seq<char>>)
    requires
        forall|i: int| 0 <= i < pieces.len() ==> !(#[trigger] pieces[i]).contains('/'),
    ensures
        forall|i: int| 0 <= i < path_names(pieces).len() ==> !(#[trigger] path_names(
            pieces,
        )[i]).contains('/'),
    decreases pieces.len(),
{
    if pieces.len() > 0 {
        assert forall|i: int| 0 <= i < pieces.drop_last().len() implies !(
        #[trigger] pieces.drop_last()[i]).contains('/') by {
            assert(pieces.drop_last()[i] == pieces[i]);
        }
        lemma_names_hold_no_slash(pieces.drop_last());
        assert(!pieces[pieces.len() - 1].contains('/'));
        let front = path_names(pieces.drop_last());
        assert forall|i: int| 0 <= i < path_names(pieces).len() implies !(#[trigger] path_names(
            pieces,
        )[i]).contains('/') by {
            if i < front.len() {
                assert(path_names(pieces)[i] == front[i]);
            }
        }
    }
}

} // verus!

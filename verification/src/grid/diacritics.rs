//! Kitty Unicode placeholders and the combining characters that number image rows and columns.

use vstd::prelude::*;

verus! {

/// The character that stands for a piece of an image.
pub const KITTY_PLACEHOLDER: char = '\u{10EEEE}';

/// The combining characters that stand for row and column numbers, in the order of the numbers.
pub const DIACRITICS: [char; 297] = [
    '\u{305}', '\u{30D}', '\u{30E}', '\u{310}', '\u{312}', '\u{33D}',
    '\u{33E}', '\u{33F}', '\u{346}', '\u{34A}', '\u{34B}', '\u{34C}',
    '\u{350}', '\u{351}', '\u{352}', '\u{357}', '\u{35B}', '\u{363}',
    '\u{364}', '\u{365}', '\u{366}', '\u{367}', '\u{368}', '\u{369}',
    '\u{36A}', '\u{36B}', '\u{36C}', '\u{36D}', '\u{36E}', '\u{36F}',
    '\u{483}', '\u{484}', '\u{485}', '\u{486}', '\u{487}', '\u{592}',
    '\u{593}', '\u{594}', '\u{595}', '\u{597}', '\u{598}', '\u{599}',
    '\u{59C}', '\u{59D}', '\u{59E}', '\u{59F}', '\u{5A0}', '\u{5A1}',
    '\u{5A8}', '\u{5A9}', '\u{5AB}', '\u{5AC}', '\u{5AF}', '\u{5C4}',
    '\u{610}', '\u{611}', '\u{612}', '\u{613}', '\u{614}', '\u{615}',
    '\u{616}', '\u{617}', '\u{657}', '\u{658}', '\u{659}', '\u{65A}',
    '\u{65B}', '\u{65D}', '\u{65E}', '\u{6D6}', '\u{6D7}', '\u{6D8}',
    '\u{6D9}', '\u{6DA}', '\u{6DB}', '\u{6DC}', '\u{6DF}', '\u{6E0}',
    '\u{6E1}', '\u{6E2}', '\u{6E4}', '\u{6E7}', '\u{6E8}', '\u{6EB}',
    '\u{6EC}', '\u{730}', '\u{732}', '\u{733}', '\u{735}', '\u{736}',
    '\u{73A}', '\u{73D}', '\u{73F}', '\u{740}', '\u{741}', '\u{743}',
    '\u{745}', '\u{747}', '\u{749}', '\u{74A}', '\u{7EB}', '\u{7EC}',
    '\u{7ED}', '\u{7EE}', '\u{7EF}', '\u{7F0}', '\u{7F1}', '\u{7F3}',
    '\u{816}', '\u{817}', '\u{818}', '\u{819}', '\u{81B}', '\u{81C}',
    '\u{81D}', '\u{81E}', '\u{81F}', '\u{820}', '\u{821}', '\u{822}',
    '\u{823}', '\u{825}', '\u{826}', '\u{827}', '\u{829}', '\u{82A}',
    '\u{82B}', '\u{82C}', '\u{82D}', '\u{951}', '\u{953}', '\u{954}',
    '\u{F82}', '\u{F83}', '\u{F86}', '\u{F87}', '\u{135D}', '\u{135E}',
    '\u{135F}', '\u{17DD}', '\u{193A}', '\u{1A17}', '\u{1A75}', '\u{1A76}',
    '\u{1A77}', '\u{1A78}', '\u{1A79}', '\u{1A7A}', '\u{1A7B}', '\u{1A7C}',
    '\u{1B6B}', '\u{1B6D}', '\u{1B6E}', '\u{1B6F}', '\u{1B70}', '\u{1B71}',
    '\u{1B72}', '\u{1B73}', '\u{1CD0}', '\u{1CD1}', '\u{1CD2}', '\u{1CDA}',
    '\u{1CDB}', '\u{1CE0}', '\u{1DC0}', '\u{1DC1}', '\u{1DC3}', '\u{1DC4}',
    '\u{1DC5}', '\u{1DC6}', '\u{1DC7}', '\u{1DC8}', '\u{1DC9}', '\u{1DCB}',
    '\u{1DCC}', '\u{1DD1}', '\u{1DD2}', '\u{1DD3}', '\u{1DD4}', '\u{1DD5}',
    '\u{1DD6}', '\u{1DD7}', '\u{1DD8}', '\u{1DD9}', '\u{1DDA}', '\u{1DDB}',
    '\u{1DDC}', '\u{1DDD}', '\u{1DDE}', '\u{1DDF}', '\u{1DE0}', '\u{1DE1}',
    '\u{1DE2}', '\u{1DE3}', '\u{1DE4}', '\u{1DE5}', '\u{1DE6}', '\u{1DFE}',
    '\u{20D0}', '\u{20D1}', '\u{20D4}', '\u{20D5}', '\u{20D6}', '\u{20D7}',
    '\u{20DB}', '\u{20DC}', '\u{20E1}', '\u{20E7}', '\u{20E9}', '\u{20F0}',
    '\u{2CEF}', '\u{2CF0}', '\u{2CF1}', '\u{2DE0}', '\u{2DE1}', '\u{2DE2}',
    '\u{2DE3}', '\u{2DE4}', '\u{2DE5}', '\u{2DE6}', '\u{2DE7}', '\u{2DE8}',
    '\u{2DE9}', '\u{2DEA}', '\u{2DEB}', '\u{2DEC}', '\u{2DED}', '\u{2DEE}',
    '\u{2DEF}', '\u{2DF0}', '\u{2DF1}', '\u{2DF2}', '\u{2DF3}', '\u{2DF4}',
    '\u{2DF5}', '\u{2DF6}', '\u{2DF7}', '\u{2DF8}', '\u{2DF9}', '\u{2DFA}',
    '\u{2DFB}', '\u{2DFC}', '\u{2DFD}', '\u{2DFE}', '\u{2DFF}', '\u{A66F}',
    '\u{A67C}', '\u{A67D}', '\u{A6F0}', '\u{A6F1}', '\u{A8E0}', '\u{A8E1}',
    '\u{A8E2}', '\u{A8E3}', '\u{A8E4}', '\u{A8E5}', '\u{A8E6}', '\u{A8E7}',
    '\u{A8E8}', '\u{A8E9}', '\u{A8EA}', '\u{A8EB}', '\u{A8EC}', '\u{A8ED}',
    '\u{A8EE}', '\u{A8EF}', '\u{A8F0}', '\u{A8F1}', '\u{AAB0}', '\u{AAB2}',
    '\u{AAB3}', '\u{AAB7}', '\u{AAB8}', '\u{AABE}', '\u{AABF}', '\u{AAC1}',
    '\u{FE20}', '\u{FE21}', '\u{FE22}', '\u{FE23}', '\u{FE24}', '\u{FE25}',
    '\u{FE26}', '\u{10A0F}', '\u{10A38}', '\u{1D185}', '\u{1D186}', '\u{1D187}',
    '\u{1D188}', '\u{1D189}', '\u{1D1AA}', '\u{1D1AB}', '\u{1D1AC}', '\u{1D1AD}',
    '\u{1D242}', '\u{1D243}', '\u{1D244}',
];

/// Whether a number is the one that a combining character stands for.
pub open spec fn numbers(c: char, n: int) -> bool {
    0 <= n < 297 && DIACRITICS@[n] == c && forall|j: int| 0 <= j < n ==> DIACRITICS@[j] != c
}

/// The number that a combining character stands for.
pub open spec fn diacritic_number(c: char) -> Option<u16> {
    if exists|n: u16| numbers(c, n as int) {
        Some(choose|n: u16| numbers(c, n as int))
    } else {
        None
    }
}

/// Decodes a combining character into the row or column number it stands for.
pub fn diacritic_to_index(c: char) -> (r: Option<u16>)
    ensures
        r == diacritic_number(c),
        match r {
            Some(n) => numbers(c, n as int),
            None => forall|j: int| 0 <= j < 297 ==> #[trigger] DIACRITICS@[j] != c,
        },
{
    let table: [char; 297] = DIACRITICS;
    let mut i: usize = 0;
    while i < 297
        invariant
            i <= 297,
            table@ == DIACRITICS@,
            forall|j: int| 0 <= j < i ==> #[trigger] DIACRITICS@[j] != c,
        decreases 297 - i,
    {
        if table[i] == c {
            proof {
                assert(numbers(c, (i as u16) as int));
                let other = diacritic_number(c)->0;
                assert(numbers(c, other as int));
                assert(other == i as u16);
            }
            return Some(i as u16);
        }
        i += 1;
    }
    None
}

/// Neighbours in the table are in ascending order.
proof fn lemma_neighbours(i: int)
    requires
        0 <= i < 296,
    ensures
        DIACRITICS@[i] < DIACRITICS@[i + 1],
{
}

/// The table is in ascending order.
proof fn lemma_ascending(i: int, j: int)
    requires
        0 <= i < j < 297,
    ensures
        DIACRITICS@[i] < DIACRITICS@[j],
    decreases j - i,
{
    lemma_neighbours(j - 1);
    if i < j - 1 {
        lemma_ascending(i, j - 1);
    }
}

/// A combining character stands for the number of its place in the table, and the numbers are in
/// the order of the characters.
pub proof fn law_numbers_follow_characters(c: char, d: char)
    ensures
        diacritic_number(c) matches Some(i) ==> i < 297 && DIACRITICS@[i as int] == c,
        diacritic_number(c) matches Some(i) ==> (diacritic_number(d) matches Some(j) ==> (c < d <==> i
            < j)),
{
    if let Some(i) = diacritic_number(c) {
        assert(numbers(c, i as int));
        if let Some(j) = diacritic_number(d) {
            assert(numbers(d, j as int));
            if i < j {
                lemma_ascending(i as int, j as int);
            } else if j < i {
                lemma_ascending(j as int, i as int);
            }
        }
    }
}

/// Every number of the table belongs to exactly one combining character.
pub proof fn law_numbers_have_one_character(n: u16, c: char)
    requires
        n < 297,
    ensures
        diacritic_number(c) == Some(n) <==> c == DIACRITICS@[n as int],
{
    let own = DIACRITICS@[n as int];
    assert forall|j: int| 0 <= j < n implies DIACRITICS@[j] != own by {
        lemma_ascending(j, n as int);
    }
    assert(numbers(own, n as int));
    let other = diacritic_number(own)->0;
    assert(numbers(own, other as int));
    assert(other == n) by {
        if other < n {
            lemma_ascending(other as int, n as int);
        } else if n < other {
            lemma_ascending(n as int, other as int);
        }
    }
    if let Some(i) = diacritic_number(c) {
        assert(numbers(c, i as int));
    }
}

/// Whether a stretch of the table holds consecutive characters, from one on.
pub open spec fn in_block(from: int, count: int, first: int) -> bool {
    forall|i: int| from <= i < from + count ==> #[trigger] DIACRITICS@[i] as int == first + (i - from)
}

/// The table holds the combining characters that stand above their letter, block by block: where a
/// block starts, how long it is, and its first character.
#[verifier::rlimit(60)]
pub proof fn law_blocks_of_combining_characters()
    ensures
        in_block(0, 1, 0x305),
        in_block(1, 2, 0x30d),
        in_block(3, 1, 0x310),
        in_block(4, 1, 0x312),
        in_block(5, 3, 0x33d),
        in_block(8, 1, 0x346),
        in_block(9, 3, 0x34a),
        in_block(12, 3, 0x350),
        in_block(15, 1, 0x357),
        in_block(16, 1, 0x35b),
        in_block(17, 13, 0x363),
        in_block(30, 5, 0x483),
        in_block(35, 4, 0x592),
        in_block(39, 3, 0x597),
        in_block(42, 6, 0x59c),
        in_block(48, 2, 0x5a8),
        in_block(50, 2, 0x5ab),
        in_block(52, 1, 0x5af),
        in_block(53, 1, 0x5c4),
        in_block(54, 8, 0x610),
        in_block(62, 5, 0x657),
        in_block(67, 2, 0x65d),
        in_block(69, 7, 0x6d6),
        in_block(76, 4, 0x6df),
        in_block(80, 1, 0x6e4),
        in_block(81, 2, 0x6e7),
        in_block(83, 2, 0x6eb),
        in_block(85, 1, 0x730),
        in_block(86, 2, 0x732),
        in_block(88, 2, 0x735),
        in_block(90, 1, 0x73a),
        in_block(91, 1, 0x73d),
        in_block(92, 3, 0x73f),
        in_block(95, 1, 0x743),
        in_block(96, 1, 0x745),
        in_block(97, 1, 0x747),
        in_block(98, 2, 0x749),
        in_block(100, 7, 0x7eb),
        in_block(107, 1, 0x7f3),
        in_block(108, 4, 0x816),
        in_block(112, 9, 0x81b),
        in_block(121, 3, 0x825),
        in_block(124, 5, 0x829),
        in_block(129, 1, 0x951),
        in_block(130, 2, 0x953),
        in_block(132, 2, 0xf82),
        in_block(134, 2, 0xf86),
        in_block(136, 3, 0x135d),
        in_block(139, 1, 0x17dd),
        in_block(140, 1, 0x193a),
        in_block(141, 1, 0x1a17),
        in_block(142, 8, 0x1a75),
        in_block(150, 1, 0x1b6b),
        in_block(151, 7, 0x1b6d),
        in_block(158, 3, 0x1cd0),
        in_block(161, 2, 0x1cda),
        in_block(163, 1, 0x1ce0),
        in_block(164, 2, 0x1dc0),
        in_block(166, 7, 0x1dc3),
        in_block(173, 2, 0x1dcb),
        in_block(175, 22, 0x1dd1),
        in_block(197, 1, 0x1dfe),
        in_block(198, 2, 0x20d0),
        in_block(200, 4, 0x20d4),
        in_block(204, 2, 0x20db),
        in_block(206, 1, 0x20e1),
        in_block(207, 1, 0x20e7),
        in_block(208, 1, 0x20e9),
        in_block(209, 1, 0x20f0),
        in_block(210, 3, 0x2cef),
        in_block(213, 32, 0x2de0),
        in_block(245, 1, 0xa66f),
        in_block(246, 2, 0xa67c),
        in_block(248, 2, 0xa6f0),
        in_block(250, 18, 0xa8e0),
        in_block(268, 1, 0xaab0),
        in_block(269, 2, 0xaab2),
        in_block(271, 2, 0xaab7),
        in_block(273, 2, 0xaabe),
        in_block(275, 1, 0xaac1),
        in_block(276, 7, 0xfe20),
        in_block(283, 1, 0x10a0f),
        in_block(284, 1, 0x10a38),
        in_block(285, 5, 0x1d185),
        in_block(290, 4, 0x1d1aa),
        in_block(294, 3, 0x1d242),
{
}

} // verus!

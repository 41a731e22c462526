//! The control keys of a graphics command and the encoding of replies.

use crate::kitty::{
    blank_command, DeleteTarget, KittyAction, KittyCommand, KittyFormat, KittyMedium,
};
use crate::text;
use vstd::prelude::*;
use vstd::utf8::encode_utf8;

verus! {

/// The text before the first equals sign.
pub open spec fn key_part(s: Seq<char>) -> Seq<char>
    decreases s.len(),
{
    if s.len() == 0 || s[0] == '=' {
        Seq::empty()
    } else {
        seq![s[0]] + key_part(s.drop_first())
    }
}

/// The text behind the first equals sign.
pub open spec fn value_part(s: Seq<char>) -> Seq<char> {
    let k = key_part(s);
    if k.len() < s.len() {
        s.skip(k.len() as int + 1)
    } else {
        Seq::empty()
    }
}

/// Whether every character is a decimal digit.
pub open spec fn all_digits(s: Seq<char>) -> bool {
    forall|i: int| 0 <= i < s.len() ==> '0' <= #[trigger] s[i] <= '9'
}

/// The number that decimal digits write.
pub open spec fn digits_value(s: Seq<char>) -> nat
    decreases s.len(),
{
    if s.len() == 0 {
        0
    } else {
        10 * digits_value(s.drop_last()) + (s.last() as int - 48) as nat
    }
}

/// The number that decimal digits write, if there is at least one and the number is at most `max`.
pub open spec fn bounded_number(s: Seq<char>, max: nat) -> Option<nat> {
    if s.len() > 0 && all_digits(s) && digits_value(s) <= max {
        Some(digits_value(s))
    } else {
        None
    }
}

/// The unsigned number up to `max` that a text writes, with an optional plus sign.
pub open spec fn unsigned_number(s: Seq<char>, max: nat) -> Option<nat> {
    if s.len() > 0 && s[0] == '+' {
        bounded_number(s.drop_first(), max)
    } else {
        bounded_number(s, max)
    }
}

/// The signed 32-bit number that a text writes.
pub open spec fn signed_number(s: Seq<char>) -> Option<int> {
    if s.len() > 0 && s[0] == '-' {
        match bounded_number(s.drop_first(), 0x8000_0000) {
            Some(n) => Some(-(n as int)),
            None => None,
        }
    } else {
        match unsigned_number(s, 0x7fff_ffff) {
            Some(n) => Some(n as int),
            None => None,
        }
    }
}

/// The unsigned 32-bit number that a text writes.
pub open spec fn word(s: Seq<char>) -> Option<u32> {
    match unsigned_number(s, u32::MAX as nat) {
        Some(n) => Some(n as u32),
        None => None,
    }
}

/// A number, or zero where there is none.
pub open spec fn or_zero(n: Option<u32>) -> u32 {
    match n {
        Some(n) => n,
        None => 0,
    }
}

/// Whether a text is one character.
pub open spec fn is_char(s: Seq<char>, c: char) -> bool {
    s.len() == 1 && s[0] == c
}

/// The action that a value selects.
pub open spec fn action_of(v: Seq<char>) -> KittyAction {
    if is_char(v, 'T') {
        KittyAction::TransmitAndDisplayWithResponse
    } else if is_char(v, 'q') {
        KittyAction::Query
    } else if is_char(v, 'p') {
        KittyAction::Place
    } else if is_char(v, 'd') {
        KittyAction::Delete
    } else {
        KittyAction::TransmitAndDisplay
    }
}

/// The format that a value selects.
pub open spec fn format_of(v: Seq<char>) -> KittyFormat {
    if v == seq!['2', '4'] {
        KittyFormat::Rgb24
    } else if v == seq!['1', '0', '0'] {
        KittyFormat::Png
    } else {
        KittyFormat::Rgba32
    }
}

/// The medium that a value selects.
pub open spec fn medium_of(v: Seq<char>) -> KittyMedium {
    if is_char(v, 'f') {
        KittyMedium::File
    } else if is_char(v, 't') {
        KittyMedium::TempFile
    } else if is_char(v, 's') {
        KittyMedium::SharedMemory
    } else {
        KittyMedium::Direct
    }
}

/// A command with one more key set. Unknown keys change nothing.
pub open spec fn with_key(cmd: KittyCommand, key: Seq<char>, v: Seq<char>) -> KittyCommand {
    if key.len() != 1 {
        cmd
    } else if key[0] == 'a' {
        KittyCommand { action: action_of(v), ..cmd }
    } else if key[0] == 'f' {
        KittyCommand { format: format_of(v), ..cmd }
    } else if key[0] == 't' {
        KittyCommand { medium: medium_of(v), ..cmd }
    } else if key[0] == 's' {
        KittyCommand { width: word(v), ..cmd }
    } else if key[0] == 'v' {
        KittyCommand { height: word(v), ..cmd }
    } else if key[0] == 'i' {
        KittyCommand { image_id: word(v), id_explicit: true, ..cmd }
    } else if key[0] == 'p' {
        KittyCommand { placement_id: word(v), ..cmd }
    } else if key[0] == 'c' {
        KittyCommand { cols: word(v), ..cmd }
    } else if key[0] == 'r' {
        KittyCommand { rows: word(v), ..cmd }
    } else if key[0] == 'X' {
        KittyCommand { offset_x: or_zero(word(v)), ..cmd }
    } else if key[0] == 'Y' {
        KittyCommand { offset_y: or_zero(word(v)), ..cmd }
    } else if key[0] == 'z' {
        KittyCommand {
            z_index: match signed_number(v) {
                Some(n) => n as i32,
                None => 0,
            },
            ..cmd
        }
    } else if key[0] == 'm' {
        KittyCommand { more_chunks: is_char(v, '1'), ..cmd }
    } else if key[0] == 'C' {
        KittyCommand { do_not_move_cursor: is_char(v, '1'), ..cmd }
    } else if key[0] == 'U' {
        KittyCommand { is_virtual: is_char(v, '1'), ..cmd }
    } else if key[0] == 'q' {
        KittyCommand {
            quiet: match unsigned_number(v, 255) {
                Some(n) => n as u8,
                None => 0,
            },
            ..cmd
        }
    } else {
        cmd
    }
}

/// A command read key by key, and the delete selector that was given last.
pub open spec fn keys_read(pieces: Seq<Seq<char>>) -> (KittyCommand, Option<Seq<char>>)
    decreases pieces.len(),
{
    if pieces.len() == 0 {
        (blank_command(), None)
    } else {
        let (cmd, selector) = keys_read(pieces.drop_last());
        let pair = text::trimmed(pieces.last());
        let key = text::trimmed(key_part(pair));
        let v = text::trimmed(value_part(pair));
        (
            with_key(cmd, key, v),
            if is_char(key, 'd') {
                Some(v)
            } else {
                selector
            },
        )
    }
}

/// What a delete selector means for a command whose other keys are known.
pub open spec fn target_of(cmd: KittyCommand, v: Seq<char>) -> DeleteTarget {
    if is_char(v, 'c') || is_char(v, 'C') {
        DeleteTarget::AtCursor
    } else if is_char(v, 'i') || is_char(v, 'I') {
        match cmd.image_id {
            Some(id) => DeleteTarget::ById(id),
            None => DeleteTarget::All,
        }
    } else if is_char(v, 'p') || is_char(v, 'P') {
        match cmd.placement_id {
            Some(id) => DeleteTarget::ByPlacement(id),
            None => DeleteTarget::All,
        }
    } else {
        DeleteTarget::All
    }
}

/// The command that a list of control keys describes. The order of the keys does not matter for
/// the delete target.
pub open spec fn command_of(s: Seq<char>) -> KittyCommand {
    let (cmd, selector) = keys_read(text::split(s, ','));
    match selector {
        Some(v) => KittyCommand { delete_target: target_of(cmd, v), ..cmd },
        None => cmd,
    }
}

/// The key of a piece of a list of control keys.
pub open spec fn piece_key(piece: Seq<char>) -> Seq<char> {
    text::trimmed(key_part(text::trimmed(piece)))
}

/// The value of a piece of a list of control keys.
pub open spec fn piece_value(piece: Seq<char>) -> Seq<char> {
    text::trimmed(value_part(text::trimmed(piece)))
}

/// Whether no key of one character is given twice.
pub open spec fn distinct_keys(pieces: Seq<Seq<char>>) -> bool {
    forall|i: int, j: int|
        0 <= i < j < pieces.len() && piece_key(#[trigger] pieces[i]).len() == 1 ==> piece_key(
            pieces[i],
        ) != piece_key(#[trigger] pieces[j])
}

/// The value that was given last for a key of one character.
spec fn value_of(pieces: Seq<Seq<char>>, k: char) -> Option<Seq<char>>
    decreases pieces.len(),
{
    if pieces.len() == 0 {
        None
    } else if is_char(piece_key(pieces.last()), k) {
        Some(piece_value(pieces.last()))
    } else {
        value_of(pieces.drop_last(), k)
    }
}

/// A number that may be given, or what stands for none.
spec fn word_of(v: Option<Seq<char>>, none: Option<u32>) -> Option<u32> {
    match v {
        Some(v) => word(v),
        None => none,
    }
}

/// A switch that may be given.
spec fn switch_of(v: Option<Seq<char>>, none: bool) -> bool {
    match v {
        Some(v) => is_char(v, '1'),
        None => none,
    }
}

/// The command whose keys have given values.
#[verifier::opaque]
spec fn command_with(values: spec_fn(char) -> Option<Seq<char>>) -> KittyCommand {
    let none = blank_command();
    KittyCommand {
        action: match values('a') {
            Some(v) => action_of(v),
            None => none.action,
        },
        format: match values('f') {
            Some(v) => format_of(v),
            None => none.format,
        },
        medium: match values('t') {
            Some(v) => medium_of(v),
            None => none.medium,
        },
        width: word_of(values('s'), none.width),
        height: word_of(values('v'), none.height),
        image_id: word_of(values('i'), none.image_id),
        id_explicit: values('i') is Some || none.id_explicit,
        placement_id: word_of(values('p'), none.placement_id),
        cols: word_of(values('c'), none.cols),
        rows: word_of(values('r'), none.rows),
        offset_x: match values('X') {
            Some(v) => or_zero(word(v)),
            None => none.offset_x,
        },
        offset_y: match values('Y') {
            Some(v) => or_zero(word(v)),
            None => none.offset_y,
        },
        z_index: match values('z') {
            Some(v) => match signed_number(v) {
                Some(n) => n as i32,
                None => 0,
            },
            None => none.z_index,
        },
        more_chunks: switch_of(values('m'), none.more_chunks),
        do_not_move_cursor: switch_of(values('C'), none.do_not_move_cursor),
        is_virtual: switch_of(values('U'), none.is_virtual),
        quiet: match values('q') {
            Some(v) => match unsigned_number(v, 255) {
                Some(n) => n as u8,
                None => 0,
            },
            None => none.quiet,
        },
        ..none
    }
}

/// The values of keys with that of one more key.
spec fn with_value(
    values: spec_fn(char) -> Option<Seq<char>>,
    key: Seq<char>,
    v: Seq<char>,
) -> spec_fn(char) -> Option<Seq<char>> {
    |k: char|
        if is_char(key, k) {
            Some(v)
        } else {
            values(k)
        }
}

/// One more key sets the field that it stands for.
#[verifier::rlimit(60)]
#[verifier::spinoff_prover]
proof fn lemma_with_key(
    values: spec_fn(char) -> Option<Seq<char>>,
    key: Seq<char>,
    v: Seq<char>,
)
    ensures
        with_key(command_with(values), key, v) == command_with(with_value(values, key, v)),
{
    let more = with_value(values, key, v);
    if key.len() != 1 {
        assert(more =~= values);
    } else {
        let k = key[0];
        assert forall|c: char| c != k implies #[trigger] more(c) == values(c) by {}
        assert(more(k) == Some(v));
        lemma_set_key(values, more, key, v);
    }
}

/// Values that differ for one key give commands that differ in its field.
#[verifier::rlimit(100)]
#[verifier::spinoff_prover]
proof fn lemma_set_key(
    values: spec_fn(char) -> Option<Seq<char>>,
    more: spec_fn(char) -> Option<Seq<char>>,
    key: Seq<char>,
    v: Seq<char>,
)
    requires
        key.len() == 1,
        more(key[0]) == Some(v),
        forall|c: char| c != key[0] ==> #[trigger] more(c) == values(c),
    ensures
        with_key(command_with(values), key, v) == command_with(more),
{
    reveal(command_with);
    let a = with_key(command_with(values), key, v);
    let b = command_with(more);
    assert(a.action == b.action);
    assert(a.format == b.format);
    assert(a.medium == b.medium);
    assert(a.width == b.width);
    assert(a.height == b.height);
    assert(a.image_id == b.image_id);
    assert(a.id_explicit == b.id_explicit);
    assert(a.placement_id == b.placement_id);
    assert(a.cols == b.cols);
    assert(a.rows == b.rows);
    assert(a.offset_x == b.offset_x);
    assert(a.offset_y == b.offset_y);
    assert(a.z_index == b.z_index);
    assert(a.more_chunks == b.more_chunks);
    assert(a.do_not_move_cursor == b.do_not_move_cursor);
    assert(a.is_virtual == b.is_virtual);
    assert(a.quiet == b.quiet);
    assert(a == b);
}

/// The last value of each key.
spec fn values_in(pieces: Seq<Seq<char>>) -> spec_fn(char) -> Option<Seq<char>> {
    |k: char| value_of(pieces, k)
}

/// What is read key by key depends on the last value of each key only.
proof fn lemma_keys_read(pieces: Seq<Seq<char>>)
    ensures
        keys_read(pieces) == (command_with(values_in(pieces)), value_of(pieces, 'd')),
    decreases pieces.len(),
{
    if pieces.len() > 0 {
        let front = pieces.drop_last();
        let key = piece_key(pieces.last());
        let v = piece_value(pieces.last());
        lemma_keys_read(front);
        lemma_with_key(values_in(front), key, v);
        assert(values_in(pieces) =~= with_value(values_in(front), key, v));
    } else {
        reveal(command_with);
    }
}

/// The value of a key is that of a piece with the key, and there is none without such a piece.
proof fn lemma_value_of(pieces: Seq<Seq<char>>, k: char)
    ensures
        match value_of(pieces, k) {
            Some(v) => exists|i: int|
                0 <= i < pieces.len() && is_char(piece_key(#[trigger] pieces[i]), k)
                    && piece_value(pieces[i]) == v,
            None => forall|i: int|
                0 <= i < pieces.len() ==> !is_char(piece_key(#[trigger] pieces[i]), k),
        },
    decreases pieces.len(),
{
    if pieces.len() > 0 {
        let front = pieces.drop_last();
        lemma_value_of(front, k);
        if is_char(piece_key(pieces.last()), k) {
            assert(pieces[pieces.len() - 1] == pieces.last());
        } else {
            match value_of(front, k) {
                Some(v) => {
                    let i = choose|i: int|
                        0 <= i < front.len() && is_char(piece_key(#[trigger] front[i]), k)
                            && piece_value(front[i]) == v;
                    assert(pieces[i] == front[i]);
                },
                None => {
                    assert forall|i: int| 0 <= i < pieces.len() implies !is_char(
                        piece_key(#[trigger] pieces[i]),
                        k,
                    ) by {
                        if i < front.len() {
                            assert(front[i] == pieces[i]);
                        }
                    }
                },
            }
        }
    }
}

/// Pieces in another order give a key the same value, if no key is given twice.
proof fn lemma_value_of_any_order(a: Seq<Seq<char>>, b: Seq<Seq<char>>, k: char)
    requires
        a.to_multiset() == b.to_multiset(),
        distinct_keys(a),
    ensures
        value_of(a, k) == value_of(b, k),
{
    broadcast use vstd::seq_lib::group_to_multiset_ensures;

    lemma_value_of(a, k);
    lemma_value_of(b, k);
    assert forall|i: int| 0 <= i < a.len() implies b.contains(#[trigger] a[i]) by {
        assert(a.contains(a[i]));
        assert(a.to_multiset().contains(a[i]));
        assert(b.to_multiset().contains(a[i]));
    }
    assert forall|i: int| 0 <= i < b.len() implies a.contains(#[trigger] b[i]) by {
        assert(b.contains(b[i]));
        assert(b.to_multiset().contains(b[i]));
        assert(a.to_multiset().contains(b[i]));
    }
    if let Some(v) = value_of(a, k) {
        let i = choose|i: int|
            0 <= i < a.len() && is_char(piece_key(#[trigger] a[i]), k) && piece_value(a[i]) == v;
        assert(b.contains(a[i]));
        let j = choose|j: int| 0 <= j < b.len() && b[j] == a[i];
        assert(is_char(piece_key(b[j]), k));
        let w = value_of(b, k)->0;
        let m = choose|m: int|
            0 <= m < b.len() && is_char(piece_key(#[trigger] b[m]), k) && piece_value(b[m]) == w;
        assert(a.contains(b[m]));
        let h = choose|h: int| 0 <= h < a.len() && a[h] == b[m];
        assert(piece_key(a[h]) =~= piece_key(a[i]));
        assert(h == i);
    } else if let Some(w) = value_of(b, k) {
        let m = choose|m: int|
            0 <= m < b.len() && is_char(piece_key(#[trigger] b[m]), k) && piece_value(b[m]) == w;
        assert(a.contains(b[m]));
        let h = choose|h: int| 0 <= h < a.len() && a[h] == b[m];
        assert(is_char(piece_key(a[h]), k));
    }
}

/// The order of control keys does not matter: two lists of the same pieces describe the same
/// command, as long as no key is given twice.
pub proof fn law_key_order_does_not_matter(s: Seq<char>, u: Seq<char>)
    requires
        text::split(s, ',').to_multiset() == text::split(u, ',').to_multiset(),
        distinct_keys(text::split(s, ',')),
    ensures
        command_of(s) == command_of(u),
{
    let a = text::split(s, ',');
    let b = text::split(u, ',');
    lemma_keys_read(a);
    lemma_keys_read(b);
    assert forall|k: char| #[trigger] value_of(a, k) == value_of(b, k) by {
        lemma_value_of_any_order(a, b, k);
    }
    assert(values_in(a) =~= values_in(b));
}

/// The image of a command counts as named exactly where its key is given.
pub proof fn law_images_are_named_by_their_key(s: Seq<char>)
    ensures
        command_of(s).id_explicit <==> exists|i: int|
            0 <= i < text::split(s, ',').len() && is_char(
                piece_key(#[trigger] text::split(s, ',')[i]),
                'i',
            ),
{
    reveal(command_with);
    lemma_keys_read(text::split(s, ','));
    lemma_value_of(text::split(s, ','), 'i');
}

fn eq_char(s: &Vec<char>, c: char) -> (r: bool)
    ensures
        r == is_char(s@, c),
{
    s.len() == 1 && s[0] == c
}

/// A number of leading zeros and more digits exceeds its prefix.
proof fn lemma_digits_grow(s: Seq<char>, i: int)
    requires
        0 <= i <= s.len(),
        all_digits(s),
    ensures
        digits_value(s.take(i)) <= digits_value(s),
    decreases s.len() - i,
{
    if i == s.len() {
        assert(s.take(i) =~= s);
    } else {
        lemma_digits_grow(s, i + 1);
        assert(s.take(i + 1).drop_last() =~= s.take(i));
        assert(s.take(i + 1).last() == s[i]);
    }
}

/// Reads a decimal number of at most `max`, from a position on.
fn read_number(s: &Vec<char>, from: usize, max: u32) -> (r: Option<u32>)
    requires
        from <= s@.len(),
    ensures
        match (r, bounded_number(s@.skip(from as int), max as nat)) {
            (Some(a), Some(b)) => a == b,
            (None, None) => true,
            _ => false,
        },
{
    let ghost d = s@.skip(from as int);
    if from == s.len() {
        return None;
    }
    let mut value: u64 = 0;
    let mut i: usize = from;
    assert(d.take(0) =~= Seq::<char>::empty());
    while i < s.len()
        invariant
            from <= i <= s@.len(),
            d == s@.skip(from as int),
            forall|j: int| 0 <= j < i - from ==> '0' <= #[trigger] d[j] <= '9',
            value == digits_value(d.take(i - from)),
            value <= max,
        decreases s@.len() - i,
    {
        let c: char = s[i];
        assert(d[i - from] == c);
        if c < '0' || c > '9' {
            return None;
        }
        value = 10 * value + (c as u32 - 48) as u64;
        proof {
            assert(d.take(i + 1 - from).drop_last() =~= d.take(i - from));
            assert(d.take(i + 1 - from).last() == c);
        }
        i += 1;
        if value > max as u64 {
            proof {
                if all_digits(d) {
                    lemma_digits_grow(d, i - from);
                }
            }
            return None;
        }
    }
    assert(d.take(d.len() as int) =~= d);
    Some(value as u32)
}

/// Reads an unsigned number of at most `max`.
fn read_unsigned(s: &Vec<char>, max: u32) -> (r: Option<u32>)
    ensures
        match (r, unsigned_number(s@, max as nat)) {
            (Some(a), Some(b)) => a == b,
            (None, None) => true,
            _ => false,
        },
{
    if s.len() > 0 && s[0] == '+' {
        assert(s@.skip(1) =~= s@.drop_first());
        read_number(s, 1, max)
    } else {
        assert(s@.skip(0) =~= s@);
        read_number(s, 0, max)
    }
}

/// Reads a signed 32-bit number.
fn read_signed(s: &Vec<char>) -> (r: Option<i32>)
    ensures
        match (r, signed_number(s@)) {
            (Some(a), Some(b)) => a == b,
            (None, None) => true,
            _ => false,
        },
{
    if s.len() > 0 && s[0] == '-' {
        assert(s@.skip(1) =~= s@.drop_first());
        match read_number(s, 1, 0x8000_0000) {
            Some(n) => Some((-(n as i64)) as i32),
            None => None,
        }
    } else {
        match read_unsigned(s, 0x7fff_ffff) {
            Some(n) => Some(n as i32),
            None => None,
        }
    }
}

/// Reads an unsigned 32-bit number.
fn read_word(s: &Vec<char>) -> (r: Option<u32>)
    ensures
        r == word(s@),
{
    read_unsigned(s, u32::MAX)
}

fn read_word_or_zero(s: &Vec<char>) -> (r: u32)
    ensures
        r == or_zero(word(s@)),
{
    match read_word(s) {
        Some(n) => n,
        None => 0,
    }
}

fn read_action(v: &Vec<char>) -> (r: KittyAction)
    ensures
        r == action_of(v@),
{
    if eq_char(v, 'T') {
        KittyAction::TransmitAndDisplayWithResponse
    } else if eq_char(v, 'q') {
        KittyAction::Query
    } else if eq_char(v, 'p') {
        KittyAction::Place
    } else if eq_char(v, 'd') {
        KittyAction::Delete
    } else {
        KittyAction::TransmitAndDisplay
    }
}

fn read_format(v: &Vec<char>) -> (r: KittyFormat)
    ensures
        r == format_of(v@),
{
    if v.len() == 2 && v[0] == '2' && v[1] == '4' {
        assert(v@ =~= seq!['2', '4']);
        KittyFormat::Rgb24
    } else if v.len() == 3 && v[0] == '1' && v[1] == '0' && v[2] == '0' {
        assert(v@ =~= seq!['1', '0', '0']);
        KittyFormat::Png
    } else {
        KittyFormat::Rgba32
    }
}

fn read_medium(v: &Vec<char>) -> (r: KittyMedium)
    ensures
        r == medium_of(v@),
{
    if eq_char(v, 'f') {
        KittyMedium::File
    } else if eq_char(v, 't') {
        KittyMedium::TempFile
    } else if eq_char(v, 's') {
        KittyMedium::SharedMemory
    } else {
        KittyMedium::Direct
    }
}

/// Sets one key of a command.
fn set_key(cmd: &mut KittyCommand, key: &Vec<char>, v: &Vec<char>)
    ensures
        *final(cmd) == with_key(*old(cmd), key@, v@),
{
    if key.len() != 1 {
        return;
    }
    let k: char = key[0];
    if k == 'a' {
        cmd.action = read_action(v);
    } else if k == 'f' {
        cmd.format = read_format(v);
    } else if k == 't' {
        cmd.medium = read_medium(v);
    } else if k == 's' {
        cmd.width = read_word(v);
    } else if k == 'v' {
        cmd.height = read_word(v);
    } else if k == 'i' {
        cmd.image_id = read_word(v);
        cmd.id_explicit = true;
    } else if k == 'p' {
        cmd.placement_id = read_word(v);
    } else if k == 'c' {
        cmd.cols = read_word(v);
    } else if k == 'r' {
        cmd.rows = read_word(v);
    } else if k == 'X' {
        cmd.offset_x = read_word_or_zero(v);
    } else if k == 'Y' {
        cmd.offset_y = read_word_or_zero(v);
    } else if k == 'z' {
        cmd.z_index = match read_signed(v) {
            Some(n) => n,
            None => 0,
        };
    } else if k == 'm' {
        cmd.more_chunks = eq_char(v, '1');
    } else if k == 'C' {
        cmd.do_not_move_cursor = eq_char(v, '1');
    } else if k == 'U' {
        cmd.is_virtual = eq_char(v, '1');
    } else if k == 'q' {
        cmd.quiet = match read_unsigned(v, 255) {
            Some(n) => n as u8,
            None => 0,
        };
    }
}

/// Splits a pair at its first equals sign.
fn split_pair(pair: &Vec<char>) -> (r: (Vec<char>, Vec<char>))
    ensures
        r.0@ == key_part(pair@),
        r.1@ == value_part(pair@),
{
    let mut key: Vec<char> = Vec::new();
    let mut i: usize = 0;
    assert(pair@.skip(0) =~= pair@);
    assert(key@ + key_part(pair@) =~= key_part(pair@));
    while i < pair.len() && pair[i] != '='
        invariant
            i <= pair@.len(),
            key@.len() == i,
            key@ + key_part(pair@.skip(i as int)) == key_part(pair@),
        decreases pair@.len() - i,
    {
        let ghost rest = pair@.skip(i as int);
        assert(rest[0] == pair@[i as int]);
        assert(rest.drop_first() =~= pair@.skip(i + 1));
        key.push(pair[i]);
        assert(key@ + key_part(pair@.skip(i + 1)) =~= key@.drop_last() + (seq![rest[0]] + key_part(
            rest.drop_first(),
        )));
        i += 1;
    }
    assert(key_part(pair@.skip(i as int)) =~= Seq::<char>::empty());
    assert(key@ =~= key_part(pair@));
    let mut value: Vec<char> = Vec::new();
    if i < pair.len() {
        let mut j: usize = i + 1;
        assert(value@ =~= pair@.subrange(i + 1, j as int));
        while j < pair.len()
            invariant
                i < j <= pair@.len(),
                value@ == pair@.subrange(i + 1, j as int),
            decreases pair@.len() - j,
        {
            value.push(pair[j]);
            assert(value@ =~= pair@.subrange(i + 1, j + 1));
            j += 1;
        }
        assert(value@ =~= pair@.skip(i + 1));
    }
    (key, value)
}

/// Reads one piece of the list of control keys.
fn read_piece(cmd: &mut KittyCommand, selector: &mut Option<Vec<char>>, piece: &Vec<char>)
    ensures
        ({
            let pair = text::trimmed(piece@);
            let key = text::trimmed(key_part(pair));
            let v = text::trimmed(value_part(pair));
            &&& *final(cmd) == with_key(*old(cmd), key, v)
            &&& selector_model(*final(selector)) == (if is_char(key, 'd') {
                Some(v)
            } else {
                selector_model(*old(selector))
            })
        }),
{
    let pair: Vec<char> = text::trim(piece.as_slice());
    let (raw_key, raw_value): (Vec<char>, Vec<char>) = split_pair(&pair);
    let key: Vec<char> = text::trim(raw_key.as_slice());
    let value: Vec<char> = text::trim(raw_value.as_slice());
    set_key(cmd, &key, &value);
    if eq_char(&key, 'd') {
        *selector = Some(value);
    }
}

spec fn selector_model(s: Option<Vec<char>>) -> Option<Seq<char>> {
    match s {
        Some(v) => Some(v@),
        None => None,
    }
}

fn read_target(cmd: &KittyCommand, v: &Vec<char>) -> (r: DeleteTarget)
    ensures
        r == target_of(*cmd, v@),
{
    if eq_char(v, 'c') || eq_char(v, 'C') {
        DeleteTarget::AtCursor
    } else if eq_char(v, 'i') || eq_char(v, 'I') {
        match cmd.image_id {
            Some(id) => DeleteTarget::ById(id),
            None => DeleteTarget::All,
        }
    } else if eq_char(v, 'p') || eq_char(v, 'P') {
        match cmd.placement_id {
            Some(id) => DeleteTarget::ByPlacement(id),
            None => DeleteTarget::All,
        }
    } else {
        DeleteTarget::All
    }
}

/// Parses the comma-separated control keys string into a `KittyCommand`.
pub fn parse_control_keys(s: &str) -> (r: KittyCommand)
    ensures
        r == command_of(s@),
{
    let chars: Vec<char> = text::chars_of(s);
    let mut cmd: KittyCommand = KittyCommand::default();
    let mut selector: Option<Vec<char>> = None;
    let mut piece: Vec<char> = Vec::new();
    let ghost mut done: Seq<Seq<char>> = Seq::empty();
    let mut i: usize = 0;
    assert(chars@.take(0) =~= Seq::<char>::empty());
    assert(text::split(chars@.take(0), ',') =~= done.push(piece@));
    while i < chars.len()
        invariant
            i <= chars@.len(),
            text::split(chars@.take(i as int), ',') == done.push(piece@),
            (cmd, selector_model(selector)) == keys_read(done),
        decreases chars@.len() - i,
    {
        let c: char = chars[i];
        proof {
            assert(chars@.take(i + 1).drop_last() =~= chars@.take(i as int));
            assert(chars@.take(i + 1).last() == c);
            assert(done.push(piece@).drop_last() =~= done);
        }
        if c == ',' {
            let ghost whole = piece@;
            read_piece(&mut cmd, &mut selector, &piece);
            piece = Vec::new();
            proof {
                done = done.push(whole);
                assert(done.drop_last() =~= done.take(done.len() - 1));
                assert(text::split(chars@.take(i + 1), ',') =~= done.push(piece@));
            }
        } else {
            let ghost before = piece@;
            piece.push(c);
            assert(text::split(chars@.take(i + 1), ',') =~= done.push(before.push(c)));
        }
        i += 1;
    }
    assert(chars@.take(chars@.len() as int) =~= chars@);
    let ghost last = piece@;
    read_piece(&mut cmd, &mut selector, &piece);
    assert(done.push(last).drop_last() =~= done);
    if let Some(v) = &selector {
        cmd.delete_target = read_target(&cmd, v);
    }
    cmd
}

/// The bytes of ASCII text.
pub open spec fn ascii_bytes(s: Seq<char>) -> Seq<u8> {
    s.map_values(|c: char| c as u8)
}

/// The bytes of a reply: `ESC _Gi=`, the image, the placement unless it is none or zero, a
/// semicolon, the message and `ESC \`.
pub open spec fn response_bytes(
    image_id: u32,
    placement_id: Option<u32>,
    message: Seq<char>,
) -> Seq<u8> {
    let head = seq![0x1bu8, 0x5f, 0x47, 0x69, 0x3d] + ascii_bytes(text::decimal(image_id as nat));
    let middle = match placement_id {
        Some(p) if p != 0 => seq![0x2cu8, 0x70, 0x3d] + ascii_bytes(text::decimal(p as nat)),
        _ => Seq::empty(),
    };
    head + middle + seq![0x3bu8] + encode_utf8(message) + seq![0x1bu8, 0x5c]
}

/// Appends the decimal digits of a number.
pub fn push_decimal(out: &mut Vec<u8>, n: u32)
    ensures
        final(out)@ == old(out)@ + ascii_bytes(text::decimal(n as nat)),
{
    let ghost before = out@;
    let digits: Vec<char> = text::decimal_chars(n as u64);
    let mut i: usize = 0;
    proof {
        text::lemma_decimal_ascii(n as nat);
        assert(before + ascii_bytes(digits@.take(0)) =~= before);
    }
    while i < digits.len()
        invariant
            i <= digits@.len(),
            forall|j: int| 0 <= j < digits@.len() ==> (#[trigger] digits@[j]) as u32 <= 127,
            out@ == before + ascii_bytes(digits@.take(i as int)),
        decreases digits@.len() - i,
    {
        out.push(digits[i] as u8);
        assert(out@ =~= before + ascii_bytes(digits@.take(i + 1)));
        i += 1;
    }
    assert(digits@.take(digits@.len() as int) =~= digits@);
}

/// Appends bytes.
pub fn push_bytes(out: &mut Vec<u8>, bytes: &[u8])
    ensures
        final(out)@ == old(out)@ + bytes@,
{
    let ghost before = out@;
    out.extend_from_slice(bytes);
    assert(out@ =~= before + bytes@);
}

/// Encodes a Kitty graphics acknowledgement for an image and optional placement id.
///
/// The wire format is `<ESC>_Gi=<id>[,p=<placement id>];<message><ESC>\\`.
pub fn kitty_response(image_id: u32, placement_id: Option<u32>, message: &str) -> (r: Vec<u8>)
    ensures
        r@ == response_bytes(image_id, placement_id, message@),
{
    let mut out: Vec<u8> = Vec::new();
    out.push(0x1b);
    out.push(0x5f);
    out.push(0x47);
    out.push(0x69);
    out.push(0x3d);
    push_decimal(&mut out, image_id);
    if let Some(p) = placement_id {
        if p != 0 {
            out.push(0x2c);
            out.push(0x70);
            out.push(0x3d);
            push_decimal(&mut out, p);
        }
    }
    out.push(0x3b);
    push_bytes(&mut out, message.as_bytes());
    out.push(0x1b);
    out.push(0x5c);
    assert(out@ =~= response_bytes(image_id, placement_id, message@));
    out
}

} // verus!

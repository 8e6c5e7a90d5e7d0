//! Text building: the number and column formats that messages and reports use.

use vstd::prelude::*;

verus! {

/// The character for one digit in base sixteen, lower case.
pub open spec fn digit_char(d: nat) -> char {
    if d < 10 {
        ('0' as nat + d) as char
    } else {
        ('a' as nat + (d - 10)) as char
    }
}

/// `n` in base ten, without leading zeros.
pub open spec fn decimal_text(n: nat) -> Seq<char>
    decreases n,
{
    if n < 10 {
        seq![digit_char(n)]
    } else {
        decimal_text(n / 10).push(digit_char(n % 10))
    }
}

fn digit(d: u64) -> (res: &'static str)
    requires
        d < 16,
    ensures
        res@ == seq![digit_char(d as nat)],
{
    proof {
        reveal_strlit("0");
        reveal_strlit("1");
        reveal_strlit("2");
        reveal_strlit("3");
        reveal_strlit("4");
        reveal_strlit("5");
        reveal_strlit("6");
        reveal_strlit("7");
        reveal_strlit("8");
        reveal_strlit("9");
        reveal_strlit("a");
        reveal_strlit("b");
        reveal_strlit("c");
        reveal_strlit("d");
        reveal_strlit("e");
        reveal_strlit("f");
    }
    match d {
        0 => "0",
        1 => "1",
        2 => "2",
        3 => "3",
        4 => "4",
        5 => "5",
        6 => "6",
        7 => "7",
        8 => "8",
        9 => "9",
        10 => "a",
        11 => "b",
        12 => "c",
        13 => "d",
        14 => "e",
        _ => "f",
    }
}

/// `n` in base ten.
pub fn decimal(n: u64) -> (text: String)
    ensures
        text@ == decimal_text(n as nat),
    decreases n,
{
    if n < 10 {
        digit(n).to_owned()
    } else {
        let mut text = decimal(n / 10);
        text.append(digit(n % 10));
        text
    }
}

/// `n` in base sixteen, lower case, without leading zeros.
pub open spec fn lower_hex_text(n: nat) -> Seq<char>
    decreases n,
{
    if n < 16 {
        seq![digit_char(n)]
    } else {
        lower_hex_text(n / 16).push(digit_char(n % 16))
    }
}

/// `n` in base sixteen, lower case.
pub fn lower_hex(n: u64) -> (text: String)
    ensures
        text@ == lower_hex_text(n as nat),
    decreases n,
{
    if n < 16 {
        digit(n).to_owned()
    } else {
        let mut text = lower_hex(n / 16);
        text.append(digit(n % 16));
        text
    }
}

/// The character for one digit in base sixteen, upper case.
pub open spec fn upper_digit_char(d: nat) -> char {
    if d < 10 {
        digit_char(d)
    } else {
        ('A' as nat + (d - 10)) as char
    }
}

/// A byte as two upper-case digits in base sixteen.
pub open spec fn upper_hex_byte_text(byte: u8) -> Seq<char> {
    seq![upper_digit_char((byte / 16) as nat), upper_digit_char((byte % 16) as nat)]
}

fn upper_digit(d: u8) -> (res: &'static str)
    requires
        d < 16,
    ensures
        res@ == seq![upper_digit_char(d as nat)],
{
    proof {
        reveal_strlit("A");
        reveal_strlit("B");
        reveal_strlit("C");
        reveal_strlit("D");
        reveal_strlit("E");
        reveal_strlit("F");
    }
    match d {
        10 => "A",
        11 => "B",
        12 => "C",
        13 => "D",
        14 => "E",
        15 => "F",
        _ => digit(d as u64),
    }
}

/// A byte as two upper-case digits in base sixteen.
pub fn upper_hex_byte(byte: u8) -> (text: String)
    ensures
        text@ == upper_hex_byte_text(byte),
{
    let mut text = upper_digit(byte / 16).to_owned();
    text.append(upper_digit(byte % 16));
    text
}

/// The permission bits of a file mode as four digits in base eight.
pub open spec fn octal_mode_text(mode: nat) -> Seq<char> {
    seq![
        digit_char(mode / 512 % 8),
        digit_char(mode / 64 % 8),
        digit_char(mode / 8 % 8),
        digit_char(mode % 8),
    ]
}

/// The low twelve bits of a file mode as four digits in base eight.
pub fn octal_mode(mode: u32) -> (text: String)
    ensures
        text@ == octal_mode_text(mode as nat),
{
    let mode: u64 = mode as u64;
    let mut text = digit(mode / 512 % 8).to_owned();
    text.append(digit(mode / 64 % 8));
    text.append(digit(mode / 8 % 8));
    text.append(digit(mode % 8));
    text
}

/// A run of `n` spaces.
pub open spec fn spaces(n: nat) -> Seq<char> {
    Seq::new(n, |i: int| ' ')
}

/// `text` right-aligned in a column of `width` characters; longer text is kept whole.
pub open spec fn right_aligned(text: Seq<char>, width: nat) -> Seq<char> {
    if text.len() >= width {
        text
    } else {
        spaces((width - text.len()) as nat) + text
    }
}

/// Right-align `text` in a column of `width` characters.
pub fn align_right(text: &str, width: usize) -> (res: String)
    ensures
        res@ == right_aligned(text@, width as nat),
{
    let len: usize = text.unicode_len();
    let mut res = String::new();
    proof {
        reveal_strlit(" ");
    }
    let mut filled: usize = len;
    while filled < width
        invariant
            len == text@.len(),
            len <= filled,
            filled <= width || filled == len,
            res@ == spaces((filled - len) as nat),
            " "@ == seq![' '],
        decreases width - filled,
    {
        res.append(" ");
        filled += 1;
        assert(res@ =~= spaces((filled - len) as nat));
    }
    res.append(text);
    assert(spaces(0) =~= Seq::<char>::empty());
    res
}

/// What an optional string holds.
pub open spec fn opt_view(text: Option<String>) -> Option<Seq<char>> {
    match text {
        Some(t) => Some(t@),
        None => None,
    }
}

/// What a list of strings holds.
pub open spec fn list_view(items: Seq<String>) -> Seq<Seq<char>> {
    items.map_values(|s: String| s@)
}

/// What a list of key and value strings holds.
pub open spec fn pairs_view(items: Seq<(String, String)>) -> Seq<(Seq<char>, Seq<char>)> {
    items.map_values(|p: (String, String)| (p.0@, p.1@))
}

/// The text an optional string holds, empty when there is none.
pub open spec fn opt_or_empty(text: Option<String>) -> Seq<char> {
    match text {
        Some(t) => t@,
        None => Seq::empty(),
    }
}

/// Copy an optional string.
pub fn clone_opt(text: &Option<String>) -> (res: Option<String>)
    ensures
        opt_view(res) == opt_view(*text),
{
    match text {
        Some(t) => Some(t.clone()),
        None => None,
    }
}

/// Copy a list of key and value strings.
pub fn clone_pairs(items: &Vec<(String, String)>) -> (res: Vec<(String, String)>)
    ensures
        pairs_view(res@) == pairs_view(items@),
{
    let mut res: Vec<(String, String)> = Vec::new();
    let mut i: usize = 0;
    while i < items.len()
        invariant
            i <= items.len(),
            res.len() == i,
            forall|j: int| 0 <= j < i ==> res@[j].0@ == items@[j].0@ && res@[j].1@ == items@[j].1@,
        decreases items.len() - i,
    {
        res.push((items[i].0.clone(), items[i].1.clone()));
        i += 1;
    }
    res
}

/// The bytes of an optional string's UTF-8 encoding, empty when there is none.
pub open spec fn opt_bytes(text: Option<String>) -> Seq<u8> {
    vstd::utf8::encode_utf8(opt_or_empty(text))
}

/// The UTF-8 bytes of an optional string, empty when there is none.
pub fn bytes_or_empty(text: &Option<String>) -> (bytes: Vec<u8>)
    ensures
        bytes@ == opt_bytes(*text),
{
    match text {
        Some(t) => vstd::slice::slice_to_vec(t.as_str().as_bytes()),
        None => Vec::new(),
    }
}

/// Texts with a space between each two.
pub open spec fn spaced(parts: Seq<Seq<char>>) -> Seq<char>
    decreases parts.len(),
{
    if parts.len() == 0 {
        Seq::empty()
    } else if parts.len() == 1 {
        parts[0]
    } else {
        spaced(parts.drop_last()) + " "@ + parts.last()
    }
}

/// Put a space between each two texts.
pub fn join_spaced(parts: &Vec<String>) -> (text: String)
    ensures
        text@ == spaced(list_view(parts@)),
{
    let mut text = String::new();
    let mut i: usize = 0;
    while i < parts.len()
        invariant
            i <= parts.len(),
            text@ == spaced(list_view(parts@).take(i as int)),
        decreases parts.len() - i,
    {
        let ghost done = list_view(parts@).take(i as int);
        if i > 0 {
            text.append(" ");
        }
        text.append(parts[i].as_str());
        i += 1;
        proof {
            let more = list_view(parts@).take(i as int);
            assert(more.drop_last() =~= done);
            assert(more.last() == parts@[i - 1]@);
            assert(text@ =~= spaced(more));
        }
    }
    assert(list_view(parts@).take(i as int) =~= list_view(parts@));
    text
}

/// How `{:?}` shows a string: quoted, with escapes.
pub uninterp spec fn quoted_text(text: Seq<char>) -> Seq<char>;

/// Show a string as `{:?}` does.
///
/// Trusted: the `Debug` impl of `str` in std. Its result is named, not described: it is a
/// function of the characters alone.
#[verifier::external_body]
pub(crate) fn quoted(text: &str) -> (res: String)
    ensures
        res@ == quoted_text(text@),
{
    format!("{:?}", text)
}

/// Whether two strings are the same.
pub fn same(a: &str, b: &str) -> (res: bool)
    ensures
        res == (a@ == b@),
{
    a.to_owned().eq(&b.to_owned())
}

/// Split a string at its first `=`.
///
/// Trusted: `str::split_once` in std, with `=` as the delimiter. It gives what stands before and
/// what stands after the first `=`, and nothing when there is none.
#[verifier::external_body]
pub(crate) fn split_at_equals(text: &str) -> (res: Option<(&str, &str)>)
    ensures
        match res {
            Some((before, after)) => {
                &&& text@ == before@ + seq!['='] + after@
                &&& !before@.contains('=')
            },
            None => !text@.contains('='),
        },
{
    text.split_once('=')
}

/// The value of one digit, in any base up to sixteen.
pub open spec fn digit_value(c: char) -> nat {
    if '0' as nat <= c as nat <= '9' as nat {
        (c as nat - '0' as nat) as nat
    } else if 'a' as nat <= c as nat <= 'f' as nat {
        (c as nat - 'a' as nat + 10) as nat
    } else if 'A' as nat <= c as nat <= 'F' as nat {
        (c as nat - 'A' as nat + 10) as nat
    } else {
        16
    }
}

/// The number that digits stand for, the first one weighing most.
pub open spec fn digits_value(text: Seq<char>, base: nat) -> nat
    decreases text.len(),
{
    if text.len() == 0 {
        0
    } else {
        digits_value(text.drop_last(), base) * base + digit_value(text.last())
    }
}

/// Whether a character is a digit of base ten.
pub open spec fn is_decimal_digit(c: char) -> bool {
    '0' as nat <= c as nat <= '9' as nat
}

/// Whether a character is a digit of base sixteen, lower case.
pub open spec fn is_lower_hex_digit(c: char) -> bool {
    is_decimal_digit(c) || 'a' as nat <= c as nat <= 'f' as nat
}

/// Reading a decimal text gives the number back; it has no sign and no leading zero.
pub proof fn decimal_reads_back(n: nat)
    ensures
        digits_value(decimal_text(n), 10) == n,
        decimal_text(n).len() > 0,
        forall|i: int|
            0 <= i < decimal_text(n).len() ==> is_decimal_digit(#[trigger] decimal_text(n)[i]),
        n > 0 ==> decimal_text(n)[0] != '0',
    decreases n,
{
    let text = decimal_text(n);
    if n < 10 {
        assert(text.drop_last() =~= Seq::<char>::empty());
        assert(digits_value(text.drop_last(), 10) == 0);
    } else {
        decimal_reads_back(n / 10);
        let shorter = decimal_text(n / 10);
        assert(text.drop_last() =~= shorter);
        assert forall|i: int| 0 <= i < text.len() implies is_decimal_digit(#[trigger] text[i]) by {
            if i < shorter.len() {
                assert(text[i] == shorter[i]);
            }
        }
        assert(text[0] == shorter[0]);
    }
}

/// Two numbers with the same decimal text are the same.
pub proof fn decimal_texts_are_told_apart(a: nat, b: nat)
    requires
        decimal_text(a) == decimal_text(b),
    ensures
        a == b,
{
    decimal_reads_back(a);
    decimal_reads_back(b);
}

/// Reading a lower-case text in base sixteen gives the number back, without a leading zero.
pub proof fn lower_hex_reads_back(n: nat)
    ensures
        digits_value(lower_hex_text(n), 16) == n,
        lower_hex_text(n).len() > 0,
        forall|i: int|
            0 <= i < lower_hex_text(n).len() ==> is_lower_hex_digit(
                #[trigger] lower_hex_text(n)[i],
            ),
        n > 0 ==> lower_hex_text(n)[0] != '0',
    decreases n,
{
    let text = lower_hex_text(n);
    if n < 16 {
        assert(text.drop_last() =~= Seq::<char>::empty());
        assert(digits_value(text.drop_last(), 16) == 0);
    } else {
        lower_hex_reads_back(n / 16);
        let shorter = lower_hex_text(n / 16);
        assert(text.drop_last() =~= shorter);
        assert forall|i: int| 0 <= i < text.len() implies is_lower_hex_digit(#[trigger] text[i]) by {
            if i < shorter.len() {
                assert(text[i] == shorter[i]);
            }
        }
        assert(text[0] == shorter[0]);
    }
}

/// A byte is shown as two digits, upper case, that read back as the byte.
pub proof fn upper_hex_reads_back(byte: u8)
    ensures
        upper_hex_byte_text(byte).len() == 2,
        digits_value(upper_hex_byte_text(byte), 16) == byte,
        forall|i: int|
            0 <= i < 2 ==> {
                let c = #[trigger] upper_hex_byte_text(byte)[i];
                is_decimal_digit(c) || 'A' as nat <= c as nat <= 'F' as nat
            },
{
    let text = upper_hex_byte_text(byte);
    assert(text.drop_last().drop_last() =~= Seq::<char>::empty());
    assert(digits_value(text.drop_last().drop_last(), 16) == 0);
    assert(text.drop_last().last() == text[0]);
    assert(digits_value(text.drop_last(), 16) == digit_value(text[0]));
}

proof fn lemma_value_push(text: Seq<char>, c: char, base: nat)
    ensures
        digits_value(text.push(c), base) == digits_value(text, base) * base + digit_value(c),
{
    assert(text.push(c).drop_last() =~= text);
}

proof fn lemma_octal_digits(mode: nat)
    ensures
        ((mode / 512 % 8 * 8 + mode / 64 % 8) * 8 + mode / 8 % 8) * 8 + mode % 8 == mode % 4096,
{
    let eighth = mode / 8;
    let next = eighth / 8;
    let last = next / 8;
    assert(mode / 64 == next);
    assert(mode / 512 == last);
    assert(mode == 8 * eighth + mode % 8);
    assert(eighth == 8 * next + eighth % 8);
    assert(next == 8 * last + next % 8);
    assert(last == 8 * (last / 8) + last % 8);
    let low = ((last % 8 * 8 + next % 8) * 8 + eighth % 8) * 8 + mode % 8;
    assert(mode == 4096 * (last / 8) + low);
    assert(low < 4096);
}

/// A file mode is shown as four digits that read back as its permission bits in base eight.
pub proof fn octal_mode_reads_back(mode: nat)
    ensures
        octal_mode_text(mode).len() == 4,
        digits_value(octal_mode_text(mode), 8) == mode % 4096,
{
    let none = Seq::<char>::empty();
    let a = digit_char(mode / 512 % 8);
    let b = digit_char(mode / 64 % 8);
    let c = digit_char(mode / 8 % 8);
    let d = digit_char(mode % 8);
    lemma_value_push(none, a, 8);
    lemma_value_push(none.push(a), b, 8);
    lemma_value_push(none.push(a).push(b), c, 8);
    lemma_value_push(none.push(a).push(b).push(c), d, 8);
    assert(octal_mode_text(mode) =~= none.push(a).push(b).push(c).push(d));
    assert(digits_value(none, 8) == 0);
    lemma_octal_digits(mode);
}

/// Alignment only puts spaces in front: as many as the column lacks.
pub proof fn alignment_keeps_the_text(text: Seq<char>, width: nat)
    ensures
        ({
            let cell = right_aligned(text, width);
            let pad = cell.len() - text.len();
            &&& pad >= 0
            &&& cell.len() >= width
            &&& cell.len() == text.len() || cell.len() == width
            &&& cell.skip(pad) == text
            &&& forall|i: int| 0 <= i < pad ==> #[trigger] cell[i] == ' '
        }),
{
    let cell = right_aligned(text, width);
    assert(cell.skip(cell.len() - text.len()) =~= text);
}

/// Joined texts stand in order with one space between each two, and none around them.
pub proof fn joining_puts_one_space_between(parts: Seq<Seq<char>>, more: Seq<char>)
    ensures
        spaced(Seq::empty()) == Seq::<char>::empty(),
        spaced(seq![more]) == more,
        parts.len() > 0 ==> spaced(parts.push(more)) == spaced(parts).push(' ') + more,
{
    reveal_strlit(" ");
    assert(seq![more][0] == more);
    if parts.len() > 0 {
        assert(parts.push(more).drop_last() =~= parts);
        assert(spaced(parts.push(more)) =~= spaced(parts).push(' ') + more);
    }
}

/// A text that is given is taken as its UTF-8 bytes, and one that is not as no bytes.
pub proof fn a_text_is_its_bytes(text: Option<String>)
    ensures
        text matches Some(t) ==> opt_bytes(text) == vstd::utf8::encode_utf8(t@),
        text is None ==> opt_bytes(text).len() == 0,
{
}

/// Whether a text holds another one.
pub open spec fn holds(whole: Seq<char>, part: Seq<char>) -> bool {
    exists|i: int| #[trigger] holds_at(whole, part, i)
}

/// Whether a text holds another one from character `i` on.
pub open spec fn holds_at(whole: Seq<char>, part: Seq<char>, i: int) -> bool {
    &&& 0 <= i
    &&& i + part.len() <= whole.len()
    &&& whole.subrange(i, i + part.len()) == part
}

/// What is put behind a text leaves what it holds, and is held itself.
pub(crate) proof fn lemma_holds_appended(whole: Seq<char>, part: Seq<char>, more: Seq<char>)
    ensures
        holds(whole, part) ==> holds(whole + more, part),
        holds(whole + more, more),
        holds(more + whole, more),
{
    if holds(whole, part) {
        let i = choose|i: int| #[trigger] holds_at(whole, part, i);
        assert((whole + more).subrange(i, i + part.len()) =~= whole.subrange(i, i + part.len()));
        assert(holds_at(whole + more, part, i));
    }
    let at = whole.len() as int;
    assert((whole + more).subrange(at, at + more.len()) =~= more);
    assert(holds_at(whole + more, more, at));
    assert((more + whole).subrange(0, more.len() as int) =~= more);
    assert(holds_at(more + whole, more, 0));
}

/// What the end of a text holds, the text holds.
pub(crate) proof fn lemma_holds_within(before: Seq<char>, whole: Seq<char>, part: Seq<char>)
    requires
        holds(whole, part),
    ensures
        holds(before + whole, part),
{
    let i = choose|i: int| #[trigger] holds_at(whole, part, i);
    let at = before.len() + i;
    assert((before + whole).subrange(at, at + part.len()) =~= whole.subrange(i, i + part.len()));
    assert(holds_at(before + whole, part, at));
}

/// What a part of a text holds, the text holds.
pub(crate) proof fn lemma_holds_transitive(whole: Seq<char>, middle: Seq<char>, part: Seq<char>)
    requires
        holds(whole, middle),
        holds(middle, part),
    ensures
        holds(whole, part),
{
    let i = choose|i: int| #[trigger] holds_at(whole, middle, i);
    let j = choose|j: int| #[trigger] holds_at(middle, part, j);
    assert forall|k: int| 0 <= k < part.len() implies #[trigger] whole[i + j + k] == part[k] by {
        assert(middle.subrange(j, j + part.len())[k] == middle[j + k]);
        assert(whole.subrange(i, i + middle.len())[j + k] == whole[i + j + k]);
    }
    assert(whole.subrange(i + j, i + j + part.len()) =~= part);
    assert(holds_at(whole, part, i + j));
}

/// Four texts in a row are each held by the whole.
pub(crate) proof fn lemma_four_held(a: Seq<char>, b: Seq<char>, c: Seq<char>, d: Seq<char>)
    ensures
        holds(a + b + c + d, a),
        holds(a + b + c + d, b),
        holds(a + b + c + d, c),
        holds(a + b + c + d, d),
{
    lemma_holds_appended(b, b, a);
    lemma_holds_appended(a, a, b);
    assert(holds(a + b, a));
    assert(holds(a + b, b));
    lemma_holds_appended(a + b, a, c);
    lemma_holds_appended(a + b, b, c);
    lemma_holds_appended(a + b + c, a, d);
    lemma_holds_appended(a + b + c, b, d);
    lemma_holds_appended(a + b + c, c, d);
}

/// What stands last in the front part of a text is held by it, and what stands before that is a
/// shorter front part.
pub(crate) proof fn lemma_held_in_front(front: Seq<char>, part: Seq<char>, whole: Seq<char>)
    requires
        (front + part).is_prefix_of(whole),
    ensures
        front.is_prefix_of(whole),
        holds(whole, part),
{
    let at = front.len() as int;
    let end = (front + part).len() as int;
    assert(whole.take(end) =~= front + part);
    assert(front =~= whole.take(at)) by {
        assert(front =~= (front + part).take(at));
        assert(whole.take(end).take(at) =~= whole.take(at));
    }
    assert(whole.subrange(at, at + part.len()) =~= part) by {
        assert((front + part).subrange(at, end) =~= part);
        assert(whole.take(end).subrange(at, end) =~= whole.subrange(at, end));
    }
    assert(holds_at(whole, part, at));
}

/// As `lemma_held_in_front`, for a label and the text behind it.
pub(crate) proof fn lemma_labelled_in_front(
    front: Seq<char>,
    label: Seq<char>,
    part: Seq<char>,
    whole: Seq<char>,
)
    requires
        (front + label + part).is_prefix_of(whole),
    ensures
        front.is_prefix_of(whole),
        holds(whole, label + part),
{
    assert(front + label + part =~= front + (label + part));
    lemma_held_in_front(front, label + part, whole);
}

} // verus!

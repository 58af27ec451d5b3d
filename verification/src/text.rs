//! Plain text helpers: number formatting, prefixes and ASCII case, all
//! over the characters of a string.

use vstd::prelude::*;

verus! {

/// The character for one digit, in bases up to sixteen.
pub open spec fn digit(d: nat) -> char {
    if d == 0 {
        '0'
    } else if d == 1 {
        '1'
    } else if d == 2 {
        '2'
    } else if d == 3 {
        '3'
    } else if d == 4 {
        '4'
    } else if d == 5 {
        '5'
    } else if d == 6 {
        '6'
    } else if d == 7 {
        '7'
    } else if d == 8 {
        '8'
    } else if d == 9 {
        '9'
    } else if d == 10 {
        'a'
    } else if d == 11 {
        'b'
    } else if d == 12 {
        'c'
    } else if d == 13 {
        'd'
    } else if d == 14 {
        'e'
    } else {
        'f'
    }
}

/// A natural number in base ten, without leading zeros.
pub open spec fn decimal(n: nat) -> Seq<char>
    decreases n,
{
    if n < 10 {
        seq![digit(n)]
    } else {
        decimal(n / 10).push(digit(n % 10))
    }
}

/// An integer in base ten, with a leading `-` when negative.
pub open spec fn signed_decimal(i: int) -> Seq<char> {
    if i < 0 {
        seq!['-'] + decimal((-i) as nat)
    } else {
        decimal(i as nat)
    }
}

/// The low `width` base-sixteen digits of a number.
pub open spec fn hex_fixed(n: nat, width: nat) -> Seq<char>
    decreases width,
{
    if width == 0 {
        seq![]
    } else {
        hex_fixed(n / 16, (width - 1) as nat).push(digit(n % 16))
    }
}

/// Two base-sixteen digits per byte.
pub open spec fn hex_bytes(bytes: Seq<u8>) -> Seq<char>
    decreases bytes.len(),
{
    if bytes.len() == 0 {
        seq![]
    } else {
        hex_bytes(bytes.drop_last()) + hex_fixed(bytes.last() as nat, 2)
    }
}

/// Whether `prefix` starts `s`.
pub open spec fn starts_with(s: Seq<char>, prefix: Seq<char>) -> bool {
    s.len() >= prefix.len() && s.subrange(0, prefix.len() as int) == prefix
}

/// A character with ASCII upper case mapped to lower case.
pub open spec fn lower_char(c: char) -> char {
    if 'A' <= c && c <= 'Z' {
        ((c as int) + 32) as char
    } else {
        c
    }
}

/// Text with ASCII upper case mapped to lower case.
pub open spec fn lower(s: Seq<char>) -> Seq<char> {
    Seq::new(s.len(), |i: int| lower_char(s[i]))
}

/// Whether the text holds a NUL character.
pub open spec fn contains_nul(s: Seq<char>) -> bool {
    exists|i: int| 0 <= i < s.len() && s[i] == '\0'
}

fn digit_text(d: usize) -> (r: &'static str)
    requires
        d < 16,
    ensures
        r@ == seq![digit(d as nat)],
{
    proof {
        reveal_strlit("0123456789abcdef");
    }
    let table: &'static str = "0123456789abcdef";
    let r: &'static str = table.substring_char(d, d + 1);
    assert(r@ =~= seq![digit(d as nat)]);
    r
}

/// A natural number in base ten.
pub fn nat_text(n: u128) -> (r: String)
    ensures
        r@ == decimal(n as nat),
    decreases n,
{
    if n < 10 {
        digit_text(n as usize).to_owned()
    } else {
        let mut r = nat_text(n / 10);
        r.append(digit_text((n % 10) as usize));
        assert(r@ =~= decimal(n as nat));
        r
    }
}

/// An integer in base ten.
pub fn int_text(i: i64) -> (r: String)
    ensures
        r@ == signed_decimal(i as int),
{
    if i < 0 {
        proof {
            reveal_strlit("-");
        }
        let mut r = "-".to_owned();
        let magnitude: i128 = -(i as i128);
        let digits = nat_text(magnitude as u128);
        r.append(digits.as_str());
        assert(r@ =~= signed_decimal(i as int));
        r
    } else {
        nat_text(i as u128)
    }
}

/// The low `width` base-sixteen digits of `n`.
pub fn hex_text(n: u64, width: usize) -> (r: String)
    ensures
        r@ == hex_fixed(n as nat, width as nat),
    decreases width,
{
    if width == 0 {
        let r = String::new();
        assert(r@ =~= hex_fixed(n as nat, 0));
        r
    } else {
        let mut r = hex_text(n / 16, width - 1);
        r.append(digit_text((n % 16) as usize));
        assert(r@ =~= hex_fixed(n as nat, width as nat));
        r
    }
}

/// Two base-sixteen digits per byte.
pub fn hex_bytes_text(bytes: &Vec<u8>) -> (r: String)
    ensures
        r@ == hex_bytes(bytes@),
{
    let mut r = String::new();
    assert(r@ =~= hex_bytes(bytes@.take(0)));
    for i in 0..bytes.len()
        invariant
            r@ == hex_bytes(bytes@.take(i as int)),
    {
        let pair = hex_text(bytes[i] as u64, 2);
        r.append(pair.as_str());
        assert(bytes@.take(i + 1).drop_last() =~= bytes@.take(i as int));
    }
    assert(bytes@.take(bytes@.len() as int) =~= bytes@);
    r
}

/// Whether two texts are the same.
pub fn same_text(a: &str, b: &str) -> (r: bool)
    ensures
        r == (a@ == b@),
{
    a.to_owned() == b.to_owned()
}

/// Whether `s` starts with `prefix`.
pub fn has_prefix(s: &str, prefix: &str) -> (r: bool)
    ensures
        r == starts_with(s@, prefix@),
{
    let n: usize = prefix.unicode_len();
    if s.unicode_len() < n {
        return false;
    }
    same_text(s.substring_char(0, n), prefix)
}

/// Whether `s` holds a NUL character.
pub fn has_nul(s: &str) -> (r: bool)
    ensures
        r == contains_nul(s@),
{
    let n: usize = s.unicode_len();
    for i in 0..n
        invariant
            n == s@.len(),
            forall|j: int| 0 <= j < i ==> s@[j] != '\0',
    {
        if s.get_char(i) == '\0' {
            assert(s@[i as int] == '\0');
            return true;
        }
    }
    false
}

/// `s` with ASCII upper case mapped to lower case.
pub fn ascii_lower(s: &str) -> (r: String)
    ensures
        r@ == lower(s@),
{
    let letters = "abcdefghijklmnopqrstuvwxyz";
    proof {
        reveal_strlit("abcdefghijklmnopqrstuvwxyz");
    }
    let n: usize = s.unicode_len();
    let mut r = String::new();
    for i in 0..n
        invariant
            n == s@.len(),
            r@ =~= lower(s@).take(i as int),
            letters@.len() == 26,
            forall|k: int| 0 <= k < 26 ==> #[trigger] letters@[k] as int == 97 + k,
    {
        let c = s.get_char(i);
        if 'A' <= c && c <= 'Z' {
            let k: usize = (c as u32 - 65) as usize;
            let one = letters.substring_char(k, k + 1);
            assert(one@ =~= seq![letters@[k as int]]);
            assert(letters@[k as int] as int == c as int + 32);
            r.append(one);
        } else {
            r.append(s.substring_char(i, i + 1));
        }
        assert(lower(s@).take(i + 1) =~= lower(s@).take(i as int).push(lower_char(c)));
    }
    assert(lower(s@).take(n as int) =~= lower(s@));
    r
}

/// The number that a text of base-ten digits stands for.
pub open spec fn digits_value(s: Seq<char>) -> int
    decreases s.len(),
{
    if s.len() == 0 {
        0
    } else {
        10 * digits_value(s.drop_last()) + (s.last() as int - '0' as int)
    }
}

/// The number that a text in base ten stands for, with a leading `-` when
/// it is negative.
pub open spec fn number(s: Seq<char>) -> int {
    if s.len() > 0 && s[0] == '-' {
        -digits_value(s.skip(1))
    } else {
        digits_value(s)
    }
}

/// Every character is a base-ten digit.
pub open spec fn all_digits(s: Seq<char>) -> bool {
    forall|i: int| 0 <= i < s.len() ==> '0' <= #[trigger] s[i] && s[i] <= '9'
}

/// A natural number can be read back from its text, which is made of digits
/// and has no leading zero.
pub proof fn law_decimal_reads_back(n: nat)
    ensures
        digits_value(decimal(n)) == n,
        all_digits(decimal(n)),
        decimal(n).len() > 0,
        decimal(n)[0] == '0' ==> decimal(n).len() == 1,
    decreases n,
{
    reveal_with_fuel(digits_value, 2);
    if n >= 10 {
        law_decimal_reads_back(n / 10);
        let front = decimal(n / 10);
        let s = decimal(n);
        assert(s.drop_last() =~= front);
        assert(s[0] == front[0]);
        if front[0] == '0' {
            reveal_with_fuel(digits_value, 2);
            assert(front.drop_last().len() == 0);
            assert(digits_value(front.drop_last()) == 0);
            assert(digits_value(front) == 0);
        }
        assert forall|i: int| 0 <= i < s.len() implies '0' <= #[trigger] s[i] && s[i] <= '9' by {
            if i < front.len() {
                assert(s[i] == front[i]);
            }
        }
    } else {
        assert(decimal(n).drop_last() =~= Seq::<char>::empty());
    }
}

/// An integer can be read back from its text, which holds nothing but
/// digits behind an optional sign.
pub proof fn law_signed_decimal_reads_back(i: int)
    ensures
        number(signed_decimal(i)) == i,
        signed_decimal(i).len() > 0,
        forall|k: int|
            0 <= k < signed_decimal(i).len() ==> signed_decimal(i)[k] == '-' || '0'
                <= #[trigger] signed_decimal(i)[k] && signed_decimal(i)[k] <= '9',
        signed_decimal(i)[0] == '-' <==> i < 0,
{
    let s = signed_decimal(i);
    if i < 0 {
        law_decimal_reads_back((-i) as nat);
        assert(s.skip(1) =~= decimal((-i) as nat));
    } else {
        law_decimal_reads_back(i as nat);
    }
}

/// The number that one base-sixteen digit in lower case stands for.
pub open spec fn hex_digit_value(c: char) -> int {
    if '0' <= c && c <= '9' {
        c as int - '0' as int
    } else {
        c as int - 'a' as int + 10
    }
}

/// The number that a text of base-sixteen digits stands for.
pub open spec fn hex_value(s: Seq<char>) -> int
    decreases s.len(),
{
    if s.len() == 0 {
        0
    } else {
        16 * hex_value(s.drop_last()) + hex_digit_value(s.last())
    }
}

proof fn lemma_hex_value(n: nat, width: nat)
    ensures
        hex_fixed(n, width).len() == width,
        0 <= hex_value(hex_fixed(n, width)),
        exists|k: int| n == hex_value(hex_fixed(n, width)) + #[trigger] (k * power_of_16(width)),
        hex_value(hex_fixed(n, width)) < power_of_16(width),
    decreases width,
{
    if width > 0 {
        let w = (width - 1) as nat;
        lemma_hex_value(n / 16, w);
        let k = choose|k: int|
            n / 16 == hex_value(hex_fixed(n / 16, w)) + #[trigger] (k * power_of_16(w));
        assert(hex_fixed(n, width).drop_last() =~= hex_fixed(n / 16, w));
        let p = power_of_16(w);
        assert(16 * (k * p) == k * (16 * p)) by (nonlinear_arith);
        assert(n == hex_value(hex_fixed(n, width)) + k * power_of_16(width));
    } else {
        assert(n == 0 + n * power_of_16(0));
    }
}

/// Sixteen to a power.
pub open spec fn power_of_16(n: nat) -> int
    decreases n,
{
    if n == 0 {
        1
    } else {
        16 * power_of_16((n - 1) as nat)
    }
}

/// A number that fits the width can be read back from its base-sixteen
/// text, which has exactly that width.
pub proof fn law_hex_reads_back(n: nat, width: nat)
    requires
        n < power_of_16(width),
    ensures
        hex_fixed(n, width).len() == width,
        hex_value(hex_fixed(n, width)) == n,
{
    lemma_hex_value(n, width);
    let v = hex_value(hex_fixed(n, width));
    let p = power_of_16(width);
    let k = choose|k: int| n == v + #[trigger] (k * p);
    assert(k == 0) by (nonlinear_arith)
        requires
            0 <= v < p,
            0 <= n < p,
            n == v + k * p,
    ;
}

/// Bytes can be read back from their base-sixteen text, two digits each, in
/// order.
pub proof fn law_hex_bytes_read_back(bytes: Seq<u8>, i: int)
    requires
        0 <= i < bytes.len(),
    ensures
        hex_bytes(bytes).len() == 2 * bytes.len(),
        hex_value(hex_bytes(bytes).subrange(2 * i, 2 * i + 2)) == bytes[i],
    decreases bytes.len(),
{
    reveal_with_fuel(power_of_16, 3);
    let front = bytes.drop_last();
    law_hex_reads_back(bytes.last() as nat, 2);
    if front.len() == 0 {
        assert(hex_bytes(front) =~= Seq::<char>::empty());
    } else {
        law_hex_bytes_read_back(
            front,
            if i < front.len() {
                i
            } else {
                0
            },
        );
    }
    if i < front.len() {
        assert(hex_bytes(bytes).subrange(2 * i, 2 * i + 2) =~= hex_bytes(front).subrange(
            2 * i,
            2 * i + 2,
        ));
    } else {
        assert(hex_bytes(bytes).subrange(2 * i, 2 * i + 2) =~= hex_fixed(bytes.last() as nat, 2));
    }
}

/// Lower case keeps the length, every character that is no capital, and the
/// place of a capital in the alphabet; it holds no capital, and putting a
/// text in lower case again changes nothing.
pub proof fn law_lower(s: Seq<char>, i: int)
    requires
        0 <= i < s.len(),
    ensures
        lower(s).len() == s.len(),
        !('A' <= s[i] && s[i] <= 'Z') ==> lower(s)[i] == s[i],
        'A' <= s[i] && s[i] <= 'Z' ==> 'a' <= lower(s)[i] && lower(s)[i] <= 'z' && lower(s)[i] as int
            - 'a' as int == s[i] as int - 'A' as int,
        !('A' <= lower(s)[i] && lower(s)[i] <= 'Z'),
        lower(lower(s)) == lower(s),
{
    assert forall|k: int| 0 <= k < s.len() implies lower(lower(s))[k] == #[trigger] lower(s)[k] by {
        assert(lower(s)[k] == lower_char(s[k]));
    }
    assert(lower(lower(s)) =~= lower(s));
}

/// What starts a text can be put in front of the rest of it, and any text
/// starts with what was put in front.
pub proof fn law_prefix(s: Seq<char>, prefix: Seq<char>, rest: Seq<char>)
    ensures
        starts_with(prefix + rest, prefix),
        starts_with(s, prefix) ==> s == prefix + s.skip(prefix.len() as int),
{
    assert((prefix + rest).subrange(0, prefix.len() as int) =~= prefix);
    if starts_with(s, prefix) {
        assert(s =~= s.subrange(0, prefix.len() as int) + s.skip(prefix.len() as int));
    }
}

/// A text holds a NUL character exactly when one of two parts of it does.
pub proof fn law_nul_in_parts(a: Seq<char>, b: Seq<char>)
    ensures
        contains_nul(a + b) <==> contains_nul(a) || contains_nul(b),
        contains_nul(seq!['\0']),
        !contains_nul(seq![]),
{
    let s = a + b;
    if contains_nul(a) {
        let i = choose|i: int| 0 <= i < a.len() && a[i] == '\0';
        assert(s[i] == '\0');
    }
    if contains_nul(b) {
        let i = choose|i: int| 0 <= i < b.len() && b[i] == '\0';
        assert(s[i + a.len()] == '\0');
    }
    if contains_nul(s) {
        let i = choose|i: int| 0 <= i < s.len() && s[i] == '\0';
        if i < a.len() {
            assert(a[i] == '\0');
        } else {
            assert(b[i - a.len()] == '\0');
        }
    }
    assert(seq!['\0'][0] == '\0');
}

/// Where a character first occurs; the length where it does not.
pub open spec fn first_place(s: Seq<char>, c: char) -> nat
    decreases s.len(),
{
    if s.len() == 0 || s[0] == c {
        0
    } else {
        1 + first_place(s.skip(1), c)
    }
}

/// The text before the first occurrence of a character.
pub open spec fn before(s: Seq<char>, c: char) -> Seq<char> {
    s.take(first_place(s, c) as int)
}

/// The text behind the first occurrence of a character.
pub open spec fn behind(s: Seq<char>, c: char) -> Seq<char> {
    s.skip(first_place(s, c) as int + 1)
}

/// A text is cut at a character into what stands before it and what stands
/// behind.
pub proof fn lemma_cut(a: Seq<char>, c: char, b: Seq<char>)
    requires
        forall|i: int| 0 <= i < a.len() ==> #[trigger] a[i] != c,
    ensures
        before(a + seq![c] + b, c) == a,
        behind(a + seq![c] + b, c) == b,
        first_place(a, c) == a.len(),
        before(a, c) == a,
    decreases a.len(),
{
    let s = a + seq![c] + b;
    if a.len() == 0 {
        assert(s[0] == c);
        assert(s.skip(1) =~= b);
        assert(s.take(0) =~= a);
        assert(a.take(0) =~= a);
    } else {
        let rest = a.skip(1);
        assert forall|i: int| 0 <= i < rest.len() implies #[trigger] rest[i] != c by {
            assert(rest[i] == a[i + 1]);
        }
        lemma_cut(rest, c, b);
        assert(s[0] == a[0]);
        assert(s.skip(1) =~= rest + seq![c] + b);
        assert(first_place(s, c) == 1 + first_place(rest + seq![c] + b, c));
        let t = rest + seq![c] + b;
        assert(t.take(first_place(t, c) as int).len() == rest.len());
        assert(first_place(t, c) == rest.len()) by {
            lemma_first_place_bound(t, c);
        }
        assert(s.take(a.len() as int) =~= a);
        assert(s.skip(a.len() as int + 1) =~= b);
        assert(a.take(a.len() as int) =~= a);
    }
}

proof fn lemma_first_place_bound(s: Seq<char>, c: char)
    ensures
        first_place(s, c) <= s.len(),
    decreases s.len(),
{
    if s.len() > 0 && s[0] != c {
        lemma_first_place_bound(s.skip(1), c);
    }
}

/// The text of a number holds no character but digits and the sign.
pub proof fn lemma_number_is_plain(i: int, c: char)
    requires
        c != '-',
        !('0' <= c && c <= '9'),
    ensures
        forall|k: int| 0 <= k < signed_decimal(i).len() ==> #[trigger] signed_decimal(i)[k] != c,
{
    law_signed_decimal_reads_back(i);
}

} // verus!

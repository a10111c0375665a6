use vstd::prelude::*;

verus! {

/// Relies on std's `String::push`: appends one character.
#[verifier::external_body]
pub(crate) fn push_char(s: &mut String, c: char)
    ensures
        final(s)@ == old(s)@.push(c),
{
    s.push(c);
}

/// The characters of `s`, one by one.
pub(crate) fn chars_of(s: &str) -> (r: Vec<char>)
    ensures
        r@ == s@,
{
    let n = s.unicode_len();
    let mut out: Vec<char> = Vec::new();
    let mut i: usize = 0;
    while i < n
        invariant
            n == s@.len(),
            i <= n,
            out@ == s@.take(i as int),
        decreases n - i,
    {
        out.push(s.get_char(i));
        i += 1;
        assert(out@ =~= s@.take(i as int));
    }
    assert(out@ =~= s@);
    out
}

/// A string holding the characters `cs[from..to]`.
pub(crate) fn string_of(cs: &Vec<char>, from: usize, to: usize) -> (r: String)
    requires
        from <= to <= cs@.len(),
    ensures
        r@ == cs@.subrange(from as int, to as int),
{
    let mut out = String::new();
    let mut i: usize = from;
    while i < to
        invariant
            from <= i <= to <= cs@.len(),
            out@ == cs@.subrange(from as int, i as int),
        decreases to - i,
    {
        push_char(&mut out, cs[i]);
        i += 1;
        assert(out@ =~= cs@.subrange(from as int, i as int));
    }
    out
}

/// The letter for a digit below 26: 'A' for 0, 'B' for 1, and so on.
pub open spec fn letter(d: nat) -> char {
    ((65 + d) as u8) as char
}

/// Spreadsheet column label of a zero-based index: A..Z, then AA, AB, and so on.
pub open spec fn column_label(n: nat) -> Seq<char>
    decreases n,
{
    if n < 26 {
        seq![letter(n)]
    } else {
        column_label((n / 26 - 1) as nat).push(letter(n % 26))
    }
}

/// Label of a zero-based column index as shown above the grid.
pub fn column_name(index: usize) -> (r: String)
    ensures
        r@ == column_label(index as nat),
{
    let mut digits: Vec<char> = Vec::new();
    let mut n: usize = index;
    loop
        invariant_except_break
            column_label(index as nat) == column_label(n as nat) + digits@.reverse(),
        ensures
            column_label(index as nat) == digits@.reverse(),
        decreases n,
    {
        let d = (65u8 + (n % 26) as u8) as char;
        let ghost before = digits@;
        digits.push(d);
        assert(digits@.reverse() =~= seq![d] + before.reverse());
        if n < 26 {
            assert(column_label(n as nat) =~= seq![d]);
            assert(column_label(index as nat) =~= digits@.reverse());
            break;
        }
        assert(column_label(n as nat) == column_label((n / 26 - 1) as nat).push(d));
        n = n / 26 - 1;
        assert(column_label(index as nat) =~= column_label(n as nat) + digits@.reverse());
    }
    let mut out = String::new();
    let mut i: usize = digits.len();
    while i > 0
        invariant
            i <= digits@.len(),
            out@ == digits@.subrange(i as int, digits@.len() as int).reverse(),
        decreases i,
    {
        i -= 1;
        push_char(&mut out, digits[i]);
        assert(out@ =~= digits@.subrange(i as int, digits@.len() as int).reverse());
    }
    assert(digits@.subrange(0, digits@.len() as int) =~= digits@);
    out
}

} // verus!

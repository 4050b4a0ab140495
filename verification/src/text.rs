use vstd::prelude::*;

verus! {

/// The one-character text of a decimal digit.
pub open spec fn spec_digit(d: int) -> Seq<char> {
    if d == 0 { "0"@ }
    else if d == 1 { "1"@ }
    else if d == 2 { "2"@ }
    else if d == 3 { "3"@ }
    else if d == 4 { "4"@ }
    else if d == 5 { "5"@ }
    else if d == 6 { "6"@ }
    else if d == 7 { "7"@ }
    else if d == 8 { "8"@ }
    else { "9"@ }
}

/// The decimal digits of `n`, most significant first, without leading zeros.
pub open spec fn spec_decimal_nat(n: nat) -> Seq<char>
    decreases n,
{
    if n < 10 {
        spec_digit(n as int)
    } else {
        spec_decimal_nat(n / 10) + spec_digit((n % 10) as int)
    }
}

/// How `{}` prints an integer: a minus sign for negative values, then the decimal digits.
pub open spec fn spec_decimal(n: int) -> Seq<char> {
    if n < 0 {
        "-"@ + spec_decimal_nat((-n) as nat)
    } else {
        spec_decimal_nat(n as nat)
    }
}

fn digit_text(d: u64) -> (s: &'static str)
    requires
        d < 10,
    ensures
        s@ == spec_digit(d as int),
{
    match d {
        0 => "0",
        1 => "1",
        2 => "2",
        3 => "3",
        4 => "4",
        5 => "5",
        6 => "6",
        7 => "7",
        8 => "8",
        _ => "9",
    }
}

fn append_decimal_nat(out: &mut String, n: u64)
    ensures
        final(out)@ == old(out)@ + spec_decimal_nat(n as nat),
    decreases n,
{
    if n >= 10 {
        append_decimal_nat(out, n / 10);
        out.append(digit_text(n % 10));
        assert(final(out)@ =~= old(out)@ + spec_decimal_nat(n as nat));
    } else {
        out.append(digit_text(n));
    }
}

/// Appends the decimal text of `n` to `out`.
pub fn append_decimal(out: &mut String, n: i32)
    ensures
        final(out)@ == old(out)@ + spec_decimal(n as int),
{
    if n < 0 {
        out.append("-");
        let magnitude: u64 = (-(n as i64)) as u64;
        append_decimal_nat(out, magnitude);
        assert(final(out)@ =~= old(out)@ + spec_decimal(n as int));
    } else {
        append_decimal_nat(out, n as u64);
    }
}

/// The log line for an attack that does damage.
pub open spec fn spec_damage_text(attacker: Seq<char>, target: Seq<char>, weapon: Seq<char>, damage: int) -> Seq<char> {
    attacker + " hits "@ + target + " with "@ + weapon + ", for "@ + spec_decimal(damage) + " hp"@
}

/// The log line for an attack that does no damage.
pub open spec fn spec_no_damage_text(attacker: Seq<char>, target: Seq<char>, weapon: Seq<char>) -> Seq<char> {
    attacker + " is unable to hurt "@ + target + " with "@ + weapon
}

/// "`attacker` hits `target` with `weapon`, for `damage` hp".
pub fn format_damage_text(attacker: &str, target: &str, weapon: &str, damage: i32) -> (s: String)
    ensures
        s@ == spec_damage_text(attacker@, target@, weapon@, damage as int),
{
    let mut s = String::from_str(attacker);
    s.append(" hits ");
    s.append(target);
    s.append(" with ");
    s.append(weapon);
    s.append(", for ");
    append_decimal(&mut s, damage);
    s.append(" hp");
    s
}

/// "`attacker` is unable to hurt `target` with `weapon`".
pub fn format_no_damage_text(attacker: &str, target: &str, weapon: &str) -> (s: String)
    ensures
        s@ == spec_no_damage_text(attacker@, target@, weapon@),
{
    let mut s = String::from_str(attacker);
    s.append(" is unable to hurt ");
    s.append(target);
    s.append(" with ");
    s.append(weapon);
    s
}

/// `prefix` followed by `name`.
pub fn join_text(prefix: &str, name: &str) -> (s: String)
    ensures
        s@ == prefix@ + name@,
{
    let mut s = String::from_str(prefix);
    s.append(name);
    s
}

/// `prefix`, then `name`, then `suffix`.
pub fn wrap_text(prefix: &str, name: &str, suffix: &str) -> (s: String)
    ensures
        s@ == prefix@ + name@ + suffix@,
{
    let mut s = String::from_str(prefix);
    s.append(name);
    s.append(suffix);
    s
}

/// A paragraph being filled: how many words each line holds so far, and how wide its last line is.
pub struct WrapState {
    pub counts: Seq<int>,
    pub width: int,
}

/// Word after word, each line is filled while the next word still fits after a space within
/// `width` cells; a word that does not fit starts a new line, which it holds alone however wide
/// it is.
pub open spec fn wrap_fold(lens: Seq<usize>, width: int, k: int) -> WrapState
    decreases k,
{
    if k <= 0 {
        WrapState { counts: Seq::empty(), width: 0 }
    } else {
        let st = wrap_fold(lens, width, k - 1);
        let w = lens[k - 1] as int;
        if st.counts.len() == 0 {
            WrapState { counts: seq![1int], width: w }
        } else if st.width + 1 + w <= width {
            WrapState { counts: st.counts.update(st.counts.len() - 1, st.counts.last() + 1), width: st.width + 1 + w }
        } else {
            WrapState { counts: st.counts.push(1int), width: w }
        }
    }
}

proof fn lemma_wrap_fold_bounds(lens: Seq<usize>, width: int, k: int)
    requires
        0 <= k <= lens.len(),
    ensures
        wrap_fold(lens, width, k).counts.len() <= k,
        forall|i: int| 0 <= i < wrap_fold(lens, width, k).counts.len() ==> 1 <= #[trigger] wrap_fold(lens, width, k).counts[i] <= k,
        k > 0 ==> wrap_fold(lens, width, k).counts.len() > 0,
        k > 0 ==> wrap_fold(lens, width, k).width >= lens[k - 1],
        k > 0 ==> (wrap_fold(lens, width, k).width <= width || wrap_fold(lens, width, k).width == lens[k - 1]),
    decreases k,
{
    if k > 0 {
        lemma_wrap_fold_bounds(lens, width, k - 1);
    }
}

/// How many of the words, whose widths are `lens`, each line of a paragraph `width` cells wide
/// holds: `wrap_fold` over all the words.
pub fn paragraph_line_counts(lens: &Vec<usize>, width: usize) -> (r: Vec<usize>)
    ensures
        r@.len() == wrap_fold(lens@, width as int, lens@.len() as int).counts.len(),
        forall|i: int| 0 <= i < r@.len() ==> #[trigger] r@[i] as int == wrap_fold(lens@, width as int, lens@.len() as int).counts[i],
{
    let mut r: Vec<usize> = Vec::new();
    let mut cur: usize = 0;
    let mut k: usize = 0;
    while k < lens.len()
        invariant
            k <= lens@.len(),
            r@.len() == wrap_fold(lens@, width as int, k as int).counts.len(),
            forall|i: int| 0 <= i < r@.len() ==> #[trigger] r@[i] as int == wrap_fold(lens@, width as int, k as int).counts[i],
            r@.len() > 0 ==> cur as int == wrap_fold(lens@, width as int, k as int).width,
        decreases lens@.len() - k,
    {
        proof {
            lemma_wrap_fold_bounds(lens@, width as int, k as int);
            lemma_wrap_fold_bounds(lens@, width as int, k + 1);
        }
        let w = lens[k];
        let ghost before = r@;
        if r.len() == 0 {
            r.push(1);
            cur = w;
        } else if cur < width && w <= width - cur - 1 {
            let last = r.len() - 1;
            assert(r@[last as int] as int <= k);
            let c = r[last];
            r.set(last, c + 1);
            cur = cur + 1 + w;
        } else {
            r.push(1);
            cur = w;
        }
        k += 1;
        proof {
            let st = wrap_fold(lens@, width as int, k as int);
            assert forall|i: int| 0 <= i < r@.len() implies #[trigger] r@[i] as int == st.counts[i] by {
                if i < before.len() {
                    assert(before[i] as int == wrap_fold(lens@, width as int, k - 1).counts[i]);
                }
            }
        }
    }
    r
}

} // verus!

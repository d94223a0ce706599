use vstd::prelude::*;

verus! {

/// The decimal digit character for `d`, which is below ten.
pub open spec fn digit_char(d: nat) -> char {
    if d == 0 { '0' }
    else if d == 1 { '1' }
    else if d == 2 { '2' }
    else if d == 3 { '3' }
    else if d == 4 { '4' }
    else if d == 5 { '5' }
    else if d == 6 { '6' }
    else if d == 7 { '7' }
    else if d == 8 { '8' }
    else { '9' }
}

/// The decimal notation of `n`: no sign, no leading zeros, "0" for zero.
pub open spec fn decimal(n: nat) -> Seq<char>
    decreases n,
{
    if n < 10 {
        seq![digit_char(n)]
    } else {
        decimal(n / 10).push(digit_char(n % 10))
    }
}

fn digit_str(d: usize) -> (r: &'static str)
    requires
        d < 10,
    ensures
        r@ == seq![digit_char(d as nat)],
{
    proof {
        reveal_strlit("0");
        reveal_strlit("1");
        reveal_strlit("2");
        reveal_strlit("3");
        reveal_strlit("4");
        reveal_strlit("5");
        reveal_strlit("6");
        reveal_strlit("7");
        reveal_strlit("8");
        reveal_strlit("9");
    }
    if d == 0 { "0" }
    else if d == 1 { "1" }
    else if d == 2 { "2" }
    else if d == 3 { "3" }
    else if d == 4 { "4" }
    else if d == 5 { "5" }
    else if d == 6 { "6" }
    else if d == 7 { "7" }
    else if d == 8 { "8" }
    else { "9" }
}

/// Appends the decimal notation of `n` to `out`.
pub fn push_decimal(out: &mut String, n: usize)
    ensures
        final(out)@ == old(out)@ + decimal(n as nat),
    decreases n,
{
    if n < 10 {
        out.append(digit_str(n));
    } else {
        push_decimal(out, n / 10);
        out.append(digit_str(n % 10));
        assert(decimal(n as nat) == decimal((n / 10) as nat).push(digit_char((n % 10) as nat)));
    }
}

/// The address `<session>:<index>` of a window.
pub open spec fn window_address(session: Seq<char>, index: nat) -> Seq<char> {
    session + ":"@ + decimal(index)
}

/// The address `<session>:<index>.0` of a window's initial pane.
pub open spec fn pane_address(session: Seq<char>, index: nat) -> Seq<char> {
    window_address(session, index) + ".0"@
}

/// Builds the target string of the window at position `index` in `session`.
pub fn window_target(session: &String, index: usize) -> (r: String)
    ensures
        r@ == window_address(session@, index as nat),
{
    let mut r = session.clone();
    r.append(":");
    push_decimal(&mut r, index);
    r
}

/// Builds the target string of the initial pane of the window at `index`.
pub fn pane_target(session: &String, index: usize) -> (r: String)
    ensures
        r@ == pane_address(session@, index as nat),
{
    let mut r = window_target(session, index);
    r.append(".0");
    r
}

} // verus!

use vstd::prelude::*;

verus! {

/// The lowercase ASCII hex digit for a nibble: `'0'..='9'` then
/// `'a'..='f'`.
pub open spec fn hex_digit(nibble: u8) -> u8 {
    if nibble < 10 {
        (48 + nibble) as u8
    } else {
        (87 + nibble) as u8
    }
}

/// The lowercase hex rendering of a byte sequence as ASCII bytes: two
/// digits per byte, high nibble first, no separators.
pub open spec fn hex_render(data: Seq<u8>) -> Seq<u8> {
    Seq::new(
        (2 * data.len()) as nat,
        |i: int|
            if i % 2 == 0 {
                hex_digit(data[i / 2] / 16)
            } else {
                hex_digit(data[i / 2] % 16)
            },
    )
}

/// Turns one nibble (below 16) into its lowercase ASCII hex digit.
fn render_digit(nibble: u8) -> (r: u8)
    requires
        nibble < 16,
    ensures
        r == hex_digit(nibble),
{
    if nibble < 10 {
        48 + nibble
    } else {
        87 + nibble
    }
}

/// Renders a byte sequence as contiguous lowercase hex, two ASCII
/// digits per byte, high nibble first.
pub fn render_hex(data: &Vec<u8>) -> (r: Vec<u8>)
    ensures
        r@ == hex_render(data@),
        r@.len() == 2 * data@.len(),
{
    let mut out: Vec<u8> = Vec::new();
    let mut j: usize = 0;
    while j < data.len()
        invariant
            j <= data@.len(),
            out@.len() == 2 * j,
            forall|i: int| 0 <= i < 2 * j ==> out@[i] == #[trigger] hex_render(data@)[i],
        decreases data@.len() - j,
    {
        let b = data[j];
        out.push(render_digit(b / 16));
        out.push(render_digit(b % 16));
        proof {
            assert((2 * j as int) / 2 == j as int);
            assert((2 * j as int + 1) / 2 == j as int);
        }
        j += 1;
    }
    proof {
        assert(out@ =~= hex_render(data@));
    }
    out
}

} // verus!

//! The tray icon file: a PNG image wrapped in a one-image ICO container.
use vstd::prelude::*;

verus! {

/// The four bytes of `n` as a little-endian 32-bit number, lowest first.
pub open spec fn le32(n: u32) -> Seq<u8> {
    seq![
        (n % 256) as u8,
        ((n / 256) % 256) as u8,
        ((n / 65536) % 256) as u8,
        (n / 16777216) as u8,
    ]
}

/// The 22 bytes before the image: the ICONDIR (reserved 0, type 1 = icon, one image, each a
/// little-endian 16-bit number) and its one ICONDIRENTRY (256 x 256 given as 0 x 0, no palette,
/// reserved 0, planes and bit count 0, the image's byte length as a 32-bit number, and the
/// image's offset, 22).
pub open spec fn ico_header(png_len: nat) -> Seq<u8> {
    seq![0u8, 0u8, 1u8, 0u8, 1u8, 0u8, 0u8, 0u8, 0u8, 0u8, 0u8, 0u8, 0u8, 0u8] + le32(
        png_len as u32,
    ) + seq![22u8, 0u8, 0u8, 0u8]
}

/// The ICO file that holds the PNG image `png`.
pub open spec fn ico_file(png: Seq<u8>) -> Seq<u8> {
    ico_header(png.len()) + png
}

/// Wraps the PNG image `png` into an ICO file (see [`ico_file`]).
pub fn build_ico_bytes(png: &[u8]) -> (r: Vec<u8>)
    requires
        png@.len() + 22 <= isize::MAX,
    ensures
        r@ == ico_file(png@),
{
    let mut ico: Vec<u8> = Vec::with_capacity(22 + png.len());
    let n: u32 = png.len() as u32;
    ico.push(0);
    ico.push(0);
    ico.push(1);
    ico.push(0);
    ico.push(1);
    ico.push(0);
    let mut k: usize = 0;
    while k < 8
        invariant
            k <= 8,
            ico@ == seq![0u8, 0u8, 1u8, 0u8, 1u8, 0u8] + Seq::new(k as nat, |j: int| 0u8),
        decreases 8 - k,
    {
        ico.push(0);
        assert(Seq::new((k + 1) as nat, |j: int| 0u8) =~= Seq::new(k as nat, |j: int| 0u8).push(
            0u8,
        ));
        k = k + 1;
    }
    ico.push((n % 256) as u8);
    ico.push(((n / 256) % 256) as u8);
    ico.push(((n / 65536) % 256) as u8);
    ico.push((n / 16777216) as u8);
    ico.push(22);
    ico.push(0);
    ico.push(0);
    ico.push(0);
    let ghost header = ico@;
    assert(header =~= ico_header(png@.len()));
    let mut i: usize = 0;
    while i < png.len()
        invariant
            i <= png@.len(),
            ico@ == header + png@.take(i as int),
        decreases png@.len() - i,
    {
        ico.push(png[i]);
        assert(png@.take(i + 1) =~= png@.take(i as int).push(png@[i as int]));
        i = i + 1;
    }
    assert(png@.take(png@.len() as int) =~= png@);
    ico
}

/// An ICO file made by [`build_ico_bytes`] is 22 bytes longer than its image, says it holds one
/// icon image, records the image's length (modulo 2^32) and its offset 22 as little-endian
/// numbers, and carries the image unchanged from that offset on.
pub proof fn lemma_ico_records_image(png: Seq<u8>)
    ensures
        ico_file(png).len() == png.len() + 22,
        ico_file(png)[2] + 256 * ico_file(png)[3] == 1,
        ico_file(png)[4] + 256 * ico_file(png)[5] == 1,
        ico_file(png)[14] + 256 * ico_file(png)[15] + 65536 * ico_file(png)[16] + 16777216
            * ico_file(png)[17] == png.len() as u32,
        ico_file(png)[18] + 256 * ico_file(png)[19] + 65536 * ico_file(png)[20] + 16777216
            * ico_file(png)[21] == 22,
        ico_file(png).subrange(22, ico_file(png).len() as int) == png,
{
    let f = ico_file(png);
    let n = png.len() as u32;
    assert(f[14] == (n % 256) as u8);
    assert(f[15] == ((n / 256) % 256) as u8);
    assert(f[16] == ((n / 65536) % 256) as u8);
    assert(f[17] == (n / 16777216) as u8);
    assert(n % 256 + 256 * ((n / 256) % 256) + 65536 * ((n / 65536) % 256) + 16777216 * (n
        / 16777216) == n) by (nonlinear_arith);
    assert(f.subrange(22, f.len() as int) =~= png);
}

} // verus!

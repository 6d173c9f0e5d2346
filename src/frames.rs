//! Frame packages: the name built from a frame index, and the index read
//! back from a frame directory's name.
use vstd::prelude::*;
use crate::config::{parse_usize, usize_of, views};
use crate::text::{chars_of, dec, dec_padded, push_char, push_decimal, push_str, starts_with, string_from};

verus! {

/// The width to which frame indices are padded with zeros.
pub const INDEX_WIDTH: usize = 4;

/// The package name of frame `n`.
pub open spec fn frame_pkg_of(n: nat) -> Seq<char> {
    "@bad-apple/frame-"@ + dec_padded(n, 4)
}

/// The number of decimal digits of `n`.
pub fn decimal_len(n: u64) -> (r: u64)
    ensures
        r as int == dec(n as nat).len(),
        1 <= r <= n as int + 1,
    decreases n,
{
    if n < 10 {
        1
    } else {
        let k = decimal_len(n / 10);
        assert(dec(n as nat) == dec((n / 10) as nat).push(crate::text::digit_char((n % 10) as nat)));
        k + 1
    }
}

/// The package name of frame `n`: `@bad-apple/frame-` and the index
/// padded with zeros to four digits.
pub fn frame_pkg(n: usize) -> (r: String)
    ensures
        r@ == frame_pkg_of(n as nat),
{
    let mut r = String::new();
    push_str(&mut r, "@bad-apple/frame-");
    let len = decimal_len(n as u64);
    let mut pad: u64 = 0;
    let ghost before = r@;
    while pad + len < INDEX_WIDTH as u64
        invariant
            r@ == before + crate::text::zeros(pad as nat),
            len as int == dec(n as nat).len(),
            pad + len <= INDEX_WIDTH || pad == 0,
            len <= n as int + 1,
        decreases INDEX_WIDTH - pad,
    {
        push_char(&mut r, '0');
        pad += 1;
        assert(r@ =~= before + crate::text::zeros(pad as nat));
    }
    push_decimal(&mut r, n as u64);
    proof {
        if len < 4 {
            assert(pad == 4 - len);
        } else {
            assert(pad == 0);
            assert(crate::text::zeros(0) =~= Seq::<char>::empty());
        }
    }
    assert(r@ =~= frame_pkg_of(n as nat));
    r
}

/// The index in a frame directory's name: `frame-` followed by four
/// characters that read as a number.
pub open spec fn frame_index_of(name: Seq<char>) -> Option<usize> {
    let p = "frame-"@;
    if p.len() <= name.len() && name.take(p.len() as int) == p
        && name.skip(p.len() as int).len() == 4 {
        usize_of(name.skip(p.len() as int))
    } else {
        None
    }
}

/// The largest frame index among `names`.
pub open spec fn max_index(names: Seq<Seq<char>>) -> Option<usize>
    decreases names.len(),
{
    if names.len() == 0 {
        None
    } else {
        let prev = max_index(names.drop_last());
        match frame_index_of(names.last()) {
            None => prev,
            Some(n) => match prev {
                None => Some(n),
                Some(m) => Some(if m >= n { m } else { n }),
            },
        }
    }
}

/// The index in a frame directory's name, if it is one.
pub fn frame_index(name: &str) -> (r: Option<usize>)
    ensures
        r == frame_index_of(name@),
{
    let c = chars_of(name);
    let p = chars_of("frame-");
    if !starts_with(&c, &p) {
        return None;
    }
    if c.len() - p.len() != INDEX_WIDTH {
        return None;
    }
    let rest = string_from(&c, p.len());
    parse_usize(rest.as_str())
}

/// The largest frame index among the names of a directory's entries
/// (`None` when no name is a frame directory's).
pub fn max_frame_index(names: &[String]) -> (r: Option<usize>)
    ensures
        r == max_index(views(names)),
{
    let ghost vs = views(names);
    let mut best: Option<usize> = None;
    let mut i: usize = 0;
    while i < names.len()
        invariant
            i <= names@.len(),
            vs == views(names),
            vs.len() == names@.len(),
            best == max_index(vs.take(i as int)),
        decreases names@.len() - i,
    {
        let f = frame_index(names[i].as_str());
        assert(vs.take(i + 1).drop_last() =~= vs.take(i as int));
        assert(vs.take(i + 1).last() == names@[i as int]@);
        best = match f {
            None => best,
            Some(n) => match best {
                None => Some(n),
                Some(m) => Some(if m >= n { m } else { n }),
            },
        };
        i += 1;
    }
    assert(vs.take(i as int) =~= vs);
    best
}

} // verus!

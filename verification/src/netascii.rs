//! The `netascii` transfer mode's line-ending translation, applied at the
//! boundary between the engine and the local source or sink: on the wire a
//! line feed travels as CR LF and a bare carriage return as CR NUL; `octet`
//! mode moves bytes untouched and needs nothing from here.

use vstd::prelude::*;

verus! {

/// Carriage return.
pub const CR: u8 = 13;

/// Line feed.
pub const LF: u8 = 10;

/// Local bytes as they travel in `netascii` mode: LF becomes CR LF, a bare
/// CR becomes CR NUL, everything else passes through.
pub open spec fn spec_to_netascii(s: Seq<u8>) -> Seq<u8>
    decreases s.len(),
{
    if s.len() == 0 {
        Seq::empty()
    } else if s[0] == LF {
        seq![CR, LF] + spec_to_netascii(s.drop_first())
    } else if s[0] == CR {
        seq![CR, 0u8] + spec_to_netascii(s.drop_first())
    } else {
        seq![s[0]] + spec_to_netascii(s.drop_first())
    }
}

/// `netascii` wire bytes as they land locally: CR LF becomes LF, CR NUL
/// becomes CR; a CR followed by anything else (or ending the input) is
/// kept as it is, so the translation never fails.
pub open spec fn spec_from_netascii(s: Seq<u8>) -> Seq<u8>
    decreases s.len(),
{
    if s.len() == 0 {
        Seq::empty()
    } else if s[0] == CR && s.len() >= 2 && s[1] == LF {
        seq![LF] + spec_from_netascii(s.skip(2))
    } else if s[0] == CR && s.len() >= 2 && s[1] == 0 {
        seq![CR] + spec_from_netascii(s.skip(2))
    } else {
        seq![s[0]] + spec_from_netascii(s.drop_first())
    }
}

/// Translates local bytes for the wire.
pub fn to_netascii(src: &Vec<u8>) -> (r: Vec<u8>)
    ensures
        r@ == spec_to_netascii(src@),
{
    let mut out: Vec<u8> = Vec::new();
    let mut i: usize = 0;
    proof {
        assert(src@.skip(0) =~= src@);
        assert(out@ + spec_to_netascii(src@) =~= spec_to_netascii(src@));
    }
    while i < src.len()
        invariant
            i <= src.len(),
            spec_to_netascii(src@) == out@ + spec_to_netascii(src@.skip(i as int)),
        decreases src.len() - i,
    {
        let b = src[i];
        proof {
            assert(src@.skip(i as int)[0] == b);
            assert(src@.skip(i as int).drop_first() =~= src@.skip(i as int + 1));
        }
        if b == LF {
            out.push(CR);
            out.push(LF);
        } else if b == CR {
            out.push(CR);
            out.push(0);
        } else {
            out.push(b);
        }
        i += 1;
    }
    proof {
        assert(src@.skip(src@.len() as int) =~= Seq::<u8>::empty());
        assert(out@ =~= out@ + spec_to_netascii(src@.skip(src@.len() as int)));
    }
    out
}

/// Translates wire bytes back to local bytes.
pub fn from_netascii(src: &Vec<u8>) -> (r: Vec<u8>)
    ensures
        r@ == spec_from_netascii(src@),
{
    let mut out: Vec<u8> = Vec::new();
    let mut i: usize = 0;
    proof {
        assert(src@.skip(0) =~= src@);
        assert(out@ + spec_from_netascii(src@) =~= spec_from_netascii(src@));
    }
    while i < src.len()
        invariant
            i <= src.len(),
            spec_from_netascii(src@) == out@ + spec_from_netascii(src@.skip(i as int)),
        decreases src.len() - i,
    {
        let b = src[i];
        proof {
            assert(src@.skip(i as int)[0] == b);
            assert(src@.skip(i as int).drop_first() =~= src@.skip(i as int + 1));
            if i + 1 < src.len() {
                assert(src@.skip(i as int)[1] == src@[i as int + 1]);
                assert(src@.skip(i as int).skip(2) =~= src@.skip(i as int + 2));
            }
        }
        if b == CR && i + 1 < src.len() && src[i + 1] == LF {
            out.push(LF);
            i += 2;
        } else if b == CR && i + 1 < src.len() && src[i + 1] == 0 {
            out.push(CR);
            i += 2;
        } else {
            out.push(b);
            i += 1;
        }
    }
    proof {
        assert(src@.skip(src@.len() as int) =~= Seq::<u8>::empty());
        assert(out@ =~= out@ + spec_from_netascii(src@.skip(src@.len() as int)));
    }
    out
}

/// Round-trip law for the translation: what goes out in `netascii` mode
/// comes back unchanged.
pub proof fn lemma_netascii_round_trip(s: Seq<u8>)
    ensures
        spec_from_netascii(spec_to_netascii(s)) == s,
    decreases s.len(),
{
    if s.len() > 0 {
        lemma_netascii_round_trip(s.drop_first());
        let t = spec_to_netascii(s.drop_first());
        if s[0] == LF {
            assert((seq![CR, LF] + t).skip(2) =~= t);
            assert(seq![LF] + s.drop_first() =~= s);
        } else if s[0] == CR {
            assert((seq![CR, 0u8] + t).skip(2) =~= t);
            assert(seq![CR] + s.drop_first() =~= s);
        } else {
            assert((seq![s[0]] + t).drop_first() =~= t);
            assert(seq![s[0]] + s.drop_first() =~= s);
        }
    }
}

} // verus!

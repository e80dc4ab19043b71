//! The header of an OMF v1 file.

use vstd::prelude::*;
use vstd::slice::slice_subrange;
use vstd::utf8::{encode_utf8, encode_utf8_decode_utf8, encode_utf8_valid_utf8, char_u32_cast};

use crate::error::Error;
use crate::text::{
    lemma_ascii_prefix, lemma_encode_all_ascii, lemma_encode_append, lemma_encode_trim_nul,
    lossy_utf8, str_equal, str_from_utf8, string_from_utf8_lossy, trim_nul,
};

use super::array::{le_value, u64_from_le};
use super::error::Omf1Error;
use super::objects::{key_text, Key};

verus! {

/// The bytes that start an OMF v1 file.
pub open spec fn omf1_magic() -> Seq<u8> {
    seq![0x84u8, 0x83, 0x82, 0x81]
}

/// The only OMF v1 version that can be converted.
pub open spec fn supported_version() -> Seq<char> {
    "OMF-v0.9.0"@
}

/// The version text in a header: bytes 4 to 36 decoded as UTF-8, replacing invalid
/// sequences, without trailing NULs.
pub open spec fn header_version(h: Seq<u8>) -> Seq<char> {
    trim_nul(lossy_utf8(h.subrange(4, 36)))
}

/// True if the text starts with `OMF-`.
pub open spec fn has_omf_prefix(v: Seq<char>) -> bool {
    v.len() >= 4 && v.take(4) == "OMF-"@
}

/// The bytes of `OMF-`.
spec fn omf_prefix_bytes() -> Seq<u8> {
    seq![79u8, 77, 70, 45]
}

proof fn lemma_omf_prefix(v: Seq<char>)
    ensures
        has_omf_prefix(v) <==> (encode_utf8(v).len() >= 4 && encode_utf8(v).take(4)
            == omf_prefix_bytes()),
{
    reveal_strlit("OMF-");
    let w = omf_prefix_bytes();
    let p = seq!['O', 'M', 'F', '-'];
    assert("OMF-"@ =~= p);
    if has_omf_prefix(v) {
        let rest = v.skip(4);
        assert(v =~= p + rest);
        lemma_encode_append(p, rest);
        lemma_encode_all_ascii(p);
        assert(p.map_values(|c: char| c as u32 as u8) =~= w);
        assert(encode_utf8(v).take(4) =~= w);
    }
    if encode_utf8(v).len() >= 4 && encode_utf8(v).take(4) == w {
        lemma_ascii_prefix(v, w);
        assert forall|i: int| 0 <= i < 4 implies v[i] == p[i] by {
            char_u32_cast(v[i], w[i] as u32);
            char_u32_cast(p[i], w[i] as u32);
        }
        assert(v.take(4) =~= p);
    }
}

/// Reads an OMF v1 header: the magic bytes, the version text, the key of the project, and
/// where the JSON starts (a little-endian 64-bit number).
///
/// A header shorter than 60 bytes, one without the magic bytes, or one whose version does
/// not start with `OMF-` is not OMF v1; any version other than `OMF-v0.9.0` is unsupported.
pub fn read_header<T>(header: &[u8]) -> (r: Result<(Key<T>, u64, String), Error>)
    ensures
        header@.len() < 60 || header@.take(4) != omf1_magic() || !has_omf_prefix(
            header_version(header@),
        ) ==> r matches Err(Error::Omf1(Omf1Error::NotOmf1)),
        header@.len() >= 60 && header@.take(4) == omf1_magic() && has_omf_prefix(
            header_version(header@),
        ) ==> if header_version(header@) != supported_version() {
            r matches Err(Error::Omf1(Omf1Error::UnsupportedVersion { version }))
                && version@ == header_version(header@)
        } else {
            r matches Ok((k, start, v)) && k.spec_value() == key_text(header@.subrange(36, 52))
                && start == le_value(header@.subrange(52, 60)) && v@ == header_version(header@)
        },
{
    if header.len() < 60 {
        return Err(Error::Omf1(Omf1Error::NotOmf1));
    }
    if header[0] != 0x84 || header[1] != 0x83 || header[2] != 0x82 || header[3] != 0x81 {
        proof {
            if header@.take(4) == omf1_magic() {
                assert(header@.take(4)[0] == 0x84u8);
                assert(header@.take(4)[1] == 0x83u8);
                assert(header@.take(4)[2] == 0x82u8);
                assert(header@.take(4)[3] == 0x81u8);
            }
        }
        return Err(Error::Omf1(Omf1Error::NotOmf1));
    }
    assert(header@.take(4) =~= omf1_magic());
    let decoded = string_from_utf8_lossy(slice_subrange(header, 4, 36));
    let bytes = decoded.as_str().as_bytes();
    let ghost e = encode_utf8(trim_nul(decoded@));
    proof {
        lemma_encode_trim_nul(decoded@);
    }
    let mut k = bytes.len();
    while k > 0 && bytes[k - 1] == 0
        invariant
            k <= bytes@.len(),
            bytes@ == encode_utf8(decoded@),
            e == encode_utf8(trim_nul(decoded@)),
            e.len() <= k,
            bytes@.take(e.len() as int) == e,
            forall|i: int| e.len() <= i < bytes@.len() ==> bytes@[i] == 0,
            e.len() > 0 ==> e.last() != 0,
        decreases k,
    {
        proof {
            if e.len() == k {
                assert(bytes@[k - 1] == bytes@.take(e.len() as int)[k - 1]);
            }
        }
        k -= 1;
    }
    proof {
        if k > e.len() {
            assert(bytes@[k - 1] == 0);
        }
    }
    let trimmed = slice_subrange(bytes, 0, k);
    assert(trimmed@ =~= e);
    proof {
        encode_utf8_valid_utf8(trim_nul(decoded@));
        encode_utf8_decode_utf8(trim_nul(decoded@));
        lemma_omf_prefix(trim_nul(decoded@));
    }
    let version = match str_from_utf8(trimmed) {
        Some(v) => v,
        None => {
            return Err(Error::Omf1(Omf1Error::NotOmf1));
        },
    };
    assert(version@ == header_version(header@));
    if k < 4 || trimmed[0] != 79 || trimmed[1] != 77 || trimmed[2] != 70 || trimmed[3] != 45 {
        proof {
            if e.len() >= 4 && e.take(4) == omf_prefix_bytes() {
                assert(e.take(4)[0] == 79u8);
                assert(e.take(4)[1] == 77u8);
                assert(e.take(4)[2] == 70u8);
                assert(e.take(4)[3] == 45u8);
            }
        }
        return Err(Error::Omf1(Omf1Error::NotOmf1));
    }
    assert(e.take(4) =~= omf_prefix_bytes());
    proof {
        reveal_strlit("OMF-v0.9.0");
    }
    if !str_equal(version, "OMF-v0.9.0") {
        return Err(
            Error::Omf1(Omf1Error::UnsupportedVersion { version: String::from_str(version) }),
        );
    }
    let key_bytes: [u8; 16] = [
        header[36],
        header[37],
        header[38],
        header[39],
        header[40],
        header[41],
        header[42],
        header[43],
        header[44],
        header[45],
        header[46],
        header[47],
        header[48],
        header[49],
        header[50],
        header[51],
    ];
    assert(key_bytes@ =~= header@.subrange(36, 52));
    let project = Key::from_bytes(key_bytes);
    let json_start = u64_from_le(header, 52, 60);
    Ok((project, json_start, String::from_str(version)))
}

} // verus!

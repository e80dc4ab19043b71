//! The archive that holds an OMF file: member names, the version comment, and the index of
//! members found when opening.

use vstd::prelude::*;
use vstd::utf8::{
    char_u32_cast, decode_utf8, encode_utf8, encode_utf8_decode_utf8, encode_utf8_valid_utf8, valid_utf8,
};

use crate::error::Error;
use crate::text::{
    after, all_digits, before, decimal, digits_value, lemma_encode_append, lemma_encode_ascii,
    lemma_encode_all_ascii, lemma_encode_avoids, lemma_encode_decimal, lemma_index_of_none, lemma_index_of_unique, find_byte, index_of, lemma_index_of, lossy_utf8, parse_u32,
    push_decimal, spec_parse_u32, str_equal, str_from_utf8, string_from_utf8_lossy,
};
use crate::version::FORMAT_NAME;

verus! {

/// The bytes that start an OMF archive comment: the format name and a space.
pub open spec fn comment_prefix() -> Seq<u8> {
    seq![79u8, 112, 101, 110, 32, 77, 105, 110, 105, 110, 103, 32, 70, 111, 114, 109, 97, 116, 32]
}

/// The format version in an archive comment: `Open Mining Format MAJOR.MINOR`, optionally
/// followed by `-PRERELEASE`. Anything after a second `-` is ignored. The comment must be
/// valid UTF-8 and the numbers must parse as `u32`.
pub open spec fn spec_get_version(b: Seq<u8>) -> Option<([u32; 2], Option<Seq<char>>)> {
    let p = comment_prefix();
    if !valid_utf8(b) || b.len() < p.len() || b.take(p.len() as int) != p {
        None
    } else {
        let rest = b.skip(p.len() as int);
        let main = before(rest, 45);
        match after(main, 46) {
            None => None,
            Some(minor_bytes) => {
                if index_of(minor_bytes, 46) is Some {
                    None
                } else {
                    match (spec_parse_u32(before(main, 46)), spec_parse_u32(minor_bytes)) {
                        (Some(major), Some(minor)) => match after(rest, 45) {
                            None => Some(([major, minor], None)),
                            Some(t) => {
                                let pre = before(t, 45);
                                if valid_utf8(pre) {
                                    Some(([major, minor], Some(decode_utf8(pre))))
                                } else {
                                    None
                                }
                            },
                        },
                        _ => None,
                    }
                }
            },
        }
    }
}

/// Reads the format version from an archive comment, as [`spec_get_version`] describes.
#[verifier::rlimit(40)]
#[verifier::spinoff_prover]
pub fn get_version(comment_bytes: &[u8]) -> (r: Option<([u32; 2], Option<String>)>)
    ensures
        match spec_get_version(comment_bytes@) {
            None => r is None,
            Some((v, None)) => r matches Some((w, None)) && w == v,
            Some((v, Some(pre))) => r matches Some((w, Some(s))) && w == v && s@ == pre,
        },
{
    let b = comment_bytes;
    if str_from_utf8(b).is_none() {
        return None;
    }
    let prefix: [u8; 19] = [79, 112, 101, 110, 32, 77, 105, 110, 105, 110, 103, 32, 70, 111, 114, 109, 97, 116, 32];
    assert(prefix@ =~= comment_prefix());
    assert(comment_prefix().len() == 19);
    let n = b.len();
    if n < 19 {
        return None;
    }
    let mut i: usize = 0;
    #[verifier::loop_isolation(false)]
    while i < 19
        invariant
            i <= 19 <= n == b@.len(),
            prefix@ == comment_prefix(),
            comment_prefix().len() == 19,
            forall|j: int| 0 <= j < i ==> b@[j] == prefix@[j],
        decreases 19 - i,
    {
        if b[i] != prefix[i] {
            assert(b@.take(19) != comment_prefix()) by {
                assert(b@.take(19)[i as int] != comment_prefix()[i as int]);
            }
            return None;
        }
        i += 1;
    }
    assert(b@.take(19) =~= comment_prefix());
    let ghost rest = b@.skip(19);
    assert(rest =~= b@.subrange(19, n as int));
    // The main version runs up to the first '-'.
    let dash = find_byte(b, 19, n, 45);
    let main_end = match dash {
        Some(d) => d,
        None => n,
    };
    let ghost main = before(rest, 45);
    proof {
        lemma_index_of(rest, 45);
        match index_of(rest, 45) {
            Some(k) => {
                assert(dash == Some((19 + k) as usize));
                assert(main_end == 19 + k);
                assert(main =~= b@.subrange(19, main_end as int));
            },
            None => {
                assert(main_end == n);
                assert(main =~= b@.subrange(19, main_end as int));
            },
        }
    }
    // MAJOR.MINOR with exactly one '.'.
    let dot = match find_byte(b, 19, main_end, 46) {
        Some(d) => d,
        None => {
            return None;
        },
    };
    proof {
        lemma_index_of(main, 46);
        assert(index_of(main, 46) == Some(dot - 19));
        assert(main.skip(dot - 19 + 1) =~= b@.subrange(dot + 1, main_end as int));
        assert(main.take(dot - 19) =~= b@.subrange(19, dot as int));
    }
    assert(after(main, 46) == Some(b@.subrange(dot + 1, main_end as int)));
    assert(before(main, 46) == b@.subrange(19, dot as int));
    if find_byte(b, dot + 1, main_end, 46).is_some() {
        return None;
    }
    let major = match parse_u32(b, 19, dot) {
        Some(v) => v,
        None => {
            return None;
        },
    };
    let minor = match parse_u32(b, dot + 1, main_end) {
        Some(v) => v,
        None => {
            return None;
        },
    };
    match dash {
        None => Some(([major, minor], None)),
        Some(d) => {
            // The pre-release runs from after the first '-' up to the next one.
            let pre_end = match find_byte(b, d + 1, n, 45) {
                Some(e) => e,
                None => n,
            };
            proof {
                lemma_index_of(rest, 45);
                let t = rest.skip(d - 19 + 1);
                assert(after(rest, 45) == Some(t));
                assert(t =~= b@.subrange(d + 1, n as int));
                lemma_index_of(t, 45);
                match index_of(t, 45) {
                    Some(k) => assert(before(t, 45) =~= b@.subrange(d + 1, pre_end as int)),
                    None => assert(before(t, 45) =~= b@.subrange(d + 1, pre_end as int)),
                }
            }
            match str_from_utf8(&b[d + 1..pre_end]) {
                Some(pre) => Some(([major, minor], Some(pre.to_owned()))),
                None => None,
            }
        },
    }
}


/// The optional text behind an optional string.
pub open spec fn opt_view(o: Option<&str>) -> Option<Seq<char>> {
    match o {
        Some(s) => Some(s@),
        None => None,
    }
}

/// The archive comment that records the format version:
/// `Open Mining Format MAJOR.MINOR`, followed by `-PRERELEASE` when there is one.
pub open spec fn spec_version_comment(major: u32, minor: u32, pre: Option<Seq<char>>) -> Seq<
    char,
> {
    let main = FORMAT_NAME@ + seq![' '] + decimal(major as nat) + seq!['.'] + decimal(
        minor as nat,
    );
    match pre {
        Some(p) => main + seq!['-'] + p,
        None => main,
    }
}

/// Builds the archive comment for a format version, as [`spec_version_comment`] describes.
pub fn version_comment(major: u32, minor: u32, pre_release: Option<&str>) -> (c: String)
    ensures
        c@ == spec_version_comment(major, minor, opt_view(pre_release)),
{
    let mut c = String::from_str(FORMAT_NAME);
    proof {
        reveal_strlit(" ");
        reveal_strlit(".");
        reveal_strlit("-");
    }
    c.append(" ");
    push_decimal(&mut c, major as u64);
    c.append(".");
    push_decimal(&mut c, minor as u64);
    if let Some(pre) = pre_release {
        c.append("-");
        c.append(pre);
    }
    c
}


proof fn lemma_prefix_encoding()
    ensures
        encode_utf8(FORMAT_NAME@ + seq![' ']) == comment_prefix(),
{
    reveal_strlit("Open Mining Format");
    assert(FORMAT_NAME@ + seq![' '] =~= seq![
        'O', 'p', 'e', 'n', ' ', 'M', 'i', 'n', 'i', 'n', 'g', ' ', 'F', 'o', 'r', 'm', 'a', 't',
        ' ',
    ]);
    lemma_encode_all_ascii(FORMAT_NAME@ + seq![' ']);
    assert((FORMAT_NAME@ + seq![' ']).map_values(|c: char| c as u32 as u8) =~= comment_prefix());
}

/// A decimal number encodes to digits that read back as the number, with no `-` or `.`.
proof fn lemma_number_bytes(n: u32)
    ensures
        encode_utf8(decimal(n as nat)).len() > 0,
        spec_parse_u32(encode_utf8(decimal(n as nat))) == Some(n),
        forall|i: int|
            0 <= i < encode_utf8(decimal(n as nat)).len() ==> 48 <= #[trigger] encode_utf8(
                decimal(n as nat),
            )[i] <= 57,
{
    lemma_encode_decimal(n as nat);
    let e = encode_utf8(decimal(n as nat));
    assert(all_digits(e));
    assert(48 <= e[0] <= 57);
    assert(digits_value(e) == n);
}

/// The comment's bytes: the prefix, the major digits, `.`, the minor digits, then `-` and the
/// pre-release when there is one.
proof fn lemma_comment_bytes(major: u32, minor: u32, pre: Option<Seq<char>>)
    ensures
        encode_utf8(spec_version_comment(major, minor, pre)) == comment_prefix() + encode_utf8(
            decimal(major as nat),
        ) + seq![46u8] + encode_utf8(decimal(minor as nat)) + match pre {
            Some(p) => seq![45u8] + encode_utf8(p),
            None => Seq::<u8>::empty(),
        },
{
    let p0 = FORMAT_NAME@ + seq![' '];
    let d1 = decimal(major as nat);
    let d2 = decimal(minor as nat);
    lemma_prefix_encoding();
    lemma_encode_ascii('.');
    lemma_encode_ascii('-');
    lemma_encode_append(p0, d1);
    lemma_encode_append(p0 + d1, seq!['.']);
    lemma_encode_append(p0 + d1 + seq!['.'], d2);
    let main = p0 + d1 + seq!['.'] + d2;
    assert(main =~= FORMAT_NAME@ + seq![' '] + decimal(major as nat) + seq!['.'] + decimal(
        minor as nat,
    ));
    match pre {
        Some(p) => {
            lemma_encode_append(main, seq!['-']);
            lemma_encode_append(main + seq!['-'], p);
            assert(encode_utf8(spec_version_comment(major, minor, pre)) =~= comment_prefix()
                + encode_utf8(d1) + seq![46u8] + encode_utf8(d2) + (seq![45u8] + encode_utf8(p)));
        },
        None => {
            assert(encode_utf8(spec_version_comment(major, minor, pre)) =~= comment_prefix()
                + encode_utf8(d1) + seq![46u8] + encode_utf8(d2) + Seq::<u8>::empty());
        },
    }
}

/// The version written into an archive comment is the version read back from it, provided
/// the pre-release suffix contains no `-` (reading stops the suffix at the next `-`).
#[verifier::spinoff_prover]
#[verifier::rlimit(60)]
pub proof fn lemma_version_comment_roundtrip(major: u32, minor: u32, pre: Option<Seq<char>>)
    requires
        pre matches Some(p) ==> forall|i: int| 0 <= i < p.len() ==> p[i] != '-',
    ensures
        spec_get_version(encode_utf8(spec_version_comment(major, minor, pre))) == Some(
            ([major, minor], pre),
        ),
{
    let b = encode_utf8(spec_version_comment(major, minor, pre));
    let e1 = encode_utf8(decimal(major as nat));
    let e2 = encode_utf8(decimal(minor as nat));
    let tail = match pre {
        Some(p) => seq![45u8] + encode_utf8(p),
        None => Seq::<u8>::empty(),
    };
    lemma_comment_bytes(major, minor, pre);
    lemma_number_bytes(major);
    lemma_number_bytes(minor);
    encode_utf8_valid_utf8(spec_version_comment(major, minor, pre));
    let cp = comment_prefix();
    assert(b =~= cp + (e1 + seq![46u8] + e2 + tail));
    assert(b.take(19) =~= cp);
    let rest = b.skip(19);
    assert(rest =~= e1 + seq![46u8] + e2 + tail);
    let k: int = e1.len() as int + 1 + e2.len() as int;
    let main = e1 + seq![46u8] + e2;
    assert forall|j: int| 0 <= j < main.len() implies main[j] != 45u8 && (j != e1.len()
        ==> main[j] != 46u8) by {
        if j < e1.len() {
            assert(main[j] == e1[j]);
        } else if j > e1.len() {
            assert(main[j] == e2[j - e1.len() - 1]);
        }
    }
    match pre {
        Some(p) => {
            assert(rest[k] == 45u8);
            assert forall|j: int| 0 <= j < k implies rest[j] != 45u8 by {
                assert(rest[j] == main[j]);
            }
            lemma_index_of_unique(rest, 45u8, k);
            assert(rest.take(k) =~= main);
            let ep = encode_utf8(p);
            assert(rest.skip(k + 1) =~= ep);
            assert forall|i: int| 0 <= i < p.len() implies p[i] as u32 != 45u8 as u32 by {
                if p[i] as u32 == 45u32 {
                    char_u32_cast(p[i], 45u32);
                    char_u32_cast('-', 45u32);
                }
            }
            lemma_encode_avoids(p, 45u8);
            lemma_index_of_none(ep, 45u8);
            encode_utf8_valid_utf8(p);
            encode_utf8_decode_utf8(p);
        },
        None => {
            assert(rest =~= main);
            lemma_index_of_none(rest, 45u8);
        },
    }
    assert(before(rest, 45u8) =~= main);
    assert(main[e1.len() as int] == 46u8);
    lemma_index_of_unique(main, 46u8, e1.len() as int);
    assert(main.take(e1.len() as int) =~= e1);
    assert(main.skip(e1.len() as int + 1) =~= e2);
    assert forall|j: int| 0 <= j < e2.len() implies e2[j] != 46u8 by {
        assert(48 <= e2[j] <= 57);
    }
    lemma_index_of_none(e2, 46u8);
}


/// Name of the archive member that holds the gzip-compressed JSON index.
pub const INDEX_NAME: &'static str = "index.json.gz";

/// Extension of Parquet archive members.
pub const PARQUET_EXT: &'static str = ".parquet";

/// Extension of PNG image archive members.
pub const PNG_EXT: &'static str = ".png";

/// Extension of JPEG image archive members.
pub const JPEG_EXT: &'static str = ".jpg";

/// The kinds of member an archive holds.
#[derive(Debug, Clone, Copy, PartialEq, Eq, Structural)]
pub enum FileType {
    /// The JSON index.
    Index,
    /// A Parquet array.
    Parquet,
    /// A PNG image.
    Png,
    /// A JPEG image.
    Jpeg,
}

/// The name given to a new member of type `file_type` when the next free id is `id`: the
/// index has a fixed name, the others are the id followed by their extension.
pub open spec fn spec_member_name(file_type: FileType, id: u64) -> Seq<char> {
    match file_type {
        FileType::Index => INDEX_NAME@,
        FileType::Parquet => decimal(id as nat) + PARQUET_EXT@,
        FileType::Png => decimal(id as nat) + PNG_EXT@,
        FileType::Jpeg => decimal(id as nat) + JPEG_EXT@,
    }
}

/// True if `name` is the name of an array or image member with id `id`.
pub open spec fn numbered(name: Seq<char>, id: u64) -> bool {
    ||| name == decimal(id as nat) + PARQUET_EXT@
    ||| name == decimal(id as nat) + PNG_EXT@
    ||| name == decimal(id as nat) + JPEG_EXT@
}

/// True if the names given so far are the index name or numbered below `next_id`, and no
/// name but the index name was given twice.
pub open spec fn names_ok(names: Seq<Seq<char>>, next_id: u64) -> bool {
    &&& next_id >= 1
    &&& forall|i: int|
        0 <= i < names.len() ==> #[trigger] names[i] == INDEX_NAME@ || exists|id: u64|
            id < next_id && numbered(names[i], id)
    &&& forall|i: int, j: int|
        0 <= i < j < names.len() && names[i] == names[j] ==> names[i] == INDEX_NAME@
}

proof fn lemma_decimal_digits(n: nat)
    ensures
        decimal(n).len() > 0,
        forall|i: int| 0 <= i < decimal(n).len() ==> 48 <= (#[trigger] decimal(n)[i]) as u32 <= 57,
    decreases n,
{
    if n >= 10 {
        lemma_decimal_digits(n / 10);
        let d = decimal(n / 10);
        assert forall|i: int| 0 <= i < decimal(n).len() implies 48 <= (#[trigger] decimal(n)[i]) as u32
            <= 57 by {
            if i < d.len() {
                assert(decimal(n)[i] == d[i]);
            }
        }
    }
}

/// Two texts that start with digits and then a `.` agree on their digits if they are equal.
proof fn lemma_split_at_dot(x1: Seq<char>, y1: Seq<char>, x2: Seq<char>, y2: Seq<char>)
    requires
        x1 + y1 == x2 + y2,
        forall|i: int| 0 <= i < x1.len() ==> 48 <= (#[trigger] x1[i]) as u32 <= 57,
        forall|i: int| 0 <= i < x2.len() ==> 48 <= (#[trigger] x2[i]) as u32 <= 57,
        y1.len() > 0 && y1[0] == '.',
        y2.len() > 0 && y2[0] == '.',
    ensures
        x1 == x2,
        y1 == y2,
{
    if x1.len() < x2.len() {
        assert((x1 + y1)[x1.len() as int] == '.');
        assert((x2 + y2)[x1.len() as int] == x2[x1.len() as int]);
    } else if x2.len() < x1.len() {
        assert((x2 + y2)[x2.len() as int] == '.');
        assert((x1 + y1)[x2.len() as int] == x1[x2.len() as int]);
    }
    assert(x1 =~= (x1 + y1).take(x1.len() as int));
    assert(x2 =~= (x2 + y2).take(x2.len() as int));
    assert(y1 =~= (x1 + y1).skip(x1.len() as int));
    assert(y2 =~= (x2 + y2).skip(x2.len() as int));
}

/// Distinct ids give distinct member names, and no numbered name is the index name.
pub proof fn lemma_numbered_distinct(n1: Seq<char>, a: u64, n2: Seq<char>, b: u64)
    requires
        numbered(n1, a),
        numbered(n2, b),
    ensures
        n1 == n2 ==> a == b,
        n1 != INDEX_NAME@,
{
    reveal_strlit(".parquet");
    reveal_strlit(".png");
    reveal_strlit(".jpg");
    reveal_strlit("index.json.gz");
    lemma_decimal_digits(a as nat);
    lemma_decimal_digits(b as nat);
    let ea = if n1 == decimal(a as nat) + PARQUET_EXT@ {
        PARQUET_EXT@
    } else if n1 == decimal(a as nat) + PNG_EXT@ {
        PNG_EXT@
    } else {
        JPEG_EXT@
    };
    let eb = if n2 == decimal(b as nat) + PARQUET_EXT@ {
        PARQUET_EXT@
    } else if n2 == decimal(b as nat) + PNG_EXT@ {
        PNG_EXT@
    } else {
        JPEG_EXT@
    };
    if n1 == n2 {
        lemma_split_at_dot(decimal(a as nat), ea, decimal(b as nat), eb);
        crate::text::lemma_encode_decimal(a as nat);
        crate::text::lemma_encode_decimal(b as nat);
    }
    assert(n1[0] == decimal(a as nat)[0]);
    assert(INDEX_NAME@[0] == 'i');
}

/// Chooses the names of the members of an archive being written, and writes its comment.
pub struct Builder {
    next_id: u64,
    filenames: Vec<String>,
}

impl Builder {
    /// The id that the next array or image member gets.
    pub closed spec fn spec_next_id(&self) -> u64 {
        self.next_id
    }

    /// The names given so far, in order.
    pub closed spec fn spec_filenames(&self) -> Seq<Seq<char>> {
        strings_view(self.filenames@)
    }

    /// A builder that has named nothing; ids start at 1.
    pub fn new() -> (b: Self)
        ensures
            b.spec_next_id() == 1,
            b.spec_filenames() == Seq::<Seq<char>>::empty(),
            names_ok(b.spec_filenames(), b.spec_next_id()),
    {
        let b = Builder { next_id: 1, filenames: Vec::new() };
        assert(b.spec_filenames() =~= Seq::<Seq<char>>::empty());
        b
    }

    fn id(&mut self) -> (i: u64)
        requires
            old(self).next_id < u64::MAX,
        ensures
            i == old(self).next_id,
            final(self).next_id == old(self).next_id + 1,
            final(self).filenames == old(self).filenames,
    {
        let i = self.next_id;
        self.next_id += 1;
        i
    }

    /// Names a new member of the given type and records the name.
    ///
    /// Array and image members take the next id; the index does not. An array or image
    /// member's name is never one given before.
    pub fn open(&mut self, file_type: FileType) -> (name: String)
        requires
            file_type != FileType::Index ==> old(self).spec_next_id() < u64::MAX,
        ensures
            names_ok(old(self).spec_filenames(), old(self).spec_next_id()) ==> names_ok(
                final(self).spec_filenames(),
                final(self).spec_next_id(),
            ),
            names_ok(old(self).spec_filenames(), old(self).spec_next_id()) && file_type
                != FileType::Index ==> !old(self).spec_filenames().contains(name@),
            name@ == spec_member_name(file_type, old(self).spec_next_id()),
            final(self).spec_next_id() == if file_type == FileType::Index {
                old(self).spec_next_id()
            } else {
                (old(self).spec_next_id() + 1) as u64
            },
            final(self).spec_filenames() == old(self).spec_filenames().push(name@),
    {
        let name = match file_type {
            FileType::Index => String::from_str(INDEX_NAME),
            FileType::Parquet => {
                let mut n = String::new();
                push_decimal(&mut n, self.id());
                n.append(PARQUET_EXT);
                n
            },
            FileType::Png => {
                let mut n = String::new();
                push_decimal(&mut n, self.id());
                n.append(PNG_EXT);
                n
            },
            FileType::Jpeg => {
                let mut n = String::new();
                push_decimal(&mut n, self.id());
                n.append(JPEG_EXT);
                n
            },
        };
        assert(name@ =~= spec_member_name(file_type, old(self).spec_next_id()));
        let ghost before = self.filenames@;
        self.filenames.push(name.clone());
        assert(self.filenames@ == before.push(name));
        assert(self.spec_filenames() =~= old(self).spec_filenames().push(name@));
        proof {
            let old_names = old(self).spec_filenames();
            let next = old(self).spec_next_id();
            if names_ok(old_names, next) {
                let names = self.spec_filenames();
                if file_type != FileType::Index {
                    assert(numbered(name@, next));
                    assert forall|i: int| 0 <= i < old_names.len() implies old_names[i] != name@ by {
                        if old_names[i] == INDEX_NAME@ {
                            lemma_numbered_distinct(name@, next, name@, next);
                        } else {
                            let id = choose|id: u64| id < next && numbered(old_names[i], id);
                            lemma_numbered_distinct(old_names[i], id, name@, next);
                        }
                    }
                    assert forall|i: int| 0 <= i < names.len() implies #[trigger] names[i]
                        == INDEX_NAME@ || exists|id: u64| id < self.next_id && numbered(
                        names[i],
                        id,
                    ) by {
                        if i < old_names.len() {
                            assert(names[i] == old_names[i]);
                            if old_names[i] != INDEX_NAME@ {
                                let id = choose|id: u64| id < next && numbered(old_names[i], id);
                                assert(id < self.next_id && numbered(names[i], id));
                            }
                        } else {
                            assert(next < self.next_id && numbered(names[i], next));
                        }
                    }
                } else {
                    assert forall|i: int| 0 <= i < names.len() implies #[trigger] names[i]
                        == INDEX_NAME@ || exists|id: u64| id < self.next_id && numbered(
                        names[i],
                        id,
                    ) by {
                        if i < old_names.len() {
                            assert(names[i] == old_names[i]);
                        }
                    }
                }
                assert forall|i: int, j: int|
                    0 <= i < j < names.len() && names[i] == names[j] implies names[i]
                    == INDEX_NAME@ by {
                    if j == old_names.len() {
                        assert(names[i] == old_names[i]);
                        if file_type != FileType::Index {
                            assert(old_names[i] != name@);
                        }
                    } else {
                        assert(names[i] == old_names[i] && names[j] == old_names[j]);
                    }
                }
            }
        }
        name
    }

    /// The names given so far, in order.
    pub fn filenames(&self) -> (r: &[String])
        ensures
            strings_view(r@) == self.spec_filenames(),
    {
        self.filenames.as_slice()
    }

    /// Finishes naming, returning the archive comment that records the format version.
    pub fn finish(self, major: u32, minor: u32, pre_release: Option<&str>) -> (comment: String)
        ensures
            comment@ == spec_version_comment(major, minor, opt_view(pre_release)),
    {
        version_comment(major, minor, pre_release)
    }
}

/// Where an archive member's data lies in the archive.
#[derive(Debug, Default, Clone, Copy, PartialEq, Eq, Structural)]
pub struct FileSpan {
    /// Offset of the first byte of the data.
    pub offset: u64,
    /// Size of the data in bytes.
    pub size: u64,
}

/// What opening an archive learns of one member from the archive's directory.
#[derive(Debug, Clone)]
pub struct ZipMember {
    /// The member's name.
    pub name: String,
    /// True if the member is stored without compression.
    pub stored: bool,
    /// Where the member's data lies.
    pub span: FileSpan,
}

/// True if the `i`th of `members` is named `name` and no later one is.
pub open spec fn is_last_named(members: Seq<(Seq<char>, FileSpan)>, i: int, name: Seq<char>) -> bool {
    &&& 0 <= i < members.len()
    &&& members[i].0 == name
    &&& forall|j: int| i < j < members.len() ==> members[j].0 != name
}

/// Every array or image member named by the builder is found again by its name once the
/// archive is read back: whatever spans the members have, no later member shares its name.
pub proof fn lemma_builder_members_found(
    names: Seq<Seq<char>>,
    next_id: u64,
    spans: Seq<FileSpan>,
    i: int,
)
    requires
        names_ok(names, next_id),
        spans.len() == names.len(),
        0 <= i < names.len(),
        names[i] != INDEX_NAME@,
    ensures
        is_last_named(Seq::new(names.len(), |k: int| (names[k], spans[k])), i, names[i]),
{
    let members = Seq::new(names.len(), |k: int| (names[k], spans[k]));
    assert forall|j: int| i < j < members.len() implies members[j].0 != names[i] by {
        assert(members[j].0 == names[j]);
    }
}

/// True if some member before the `i`th is the last one named `name`.
pub open spec fn last_named_before(members: Seq<(Seq<char>, FileSpan)>, name: Seq<char>, i: int) -> bool {
    exists|k: int| 0 <= k < i && is_last_named(members, k, name)
}

/// The message of the error for compressed members.
pub open spec fn compressed_message() -> Seq<char> {
    "members may not be compressed"@
}

/// An opened OMF archive: its members and format version.
pub struct Archive {
    members: Vec<(String, FileSpan)>,
    version: [u32; 2],
    pre_release: Option<String>,
}

/// The text of each string.
pub open spec fn strings_view(s: Seq<String>) -> Seq<Seq<char>> {
    s.map_values(|x: String| x@)
}

/// The names and spans of a list of entries.
pub open spec fn entries_view(es: Seq<(String, FileSpan)>) -> Seq<(Seq<char>, FileSpan)> {
    es.map_values(|e: (String, FileSpan)| (e.0@, e.1))
}

/// The names and spans of a list of members.
pub open spec fn member_entries(members: Seq<ZipMember>) -> Seq<(Seq<char>, FileSpan)> {
    members.map_values(|m: ZipMember| (m.name@, m.span))
}

impl Archive {
    /// The members' names and spans in the order the archive lists them. Where a name occurs
    /// twice, the later one counts.
    pub closed spec fn spec_members(&self) -> Seq<(Seq<char>, FileSpan)> {
        entries_view(self.members@)
    }

    /// The format version.
    pub closed spec fn spec_version(&self) -> [u32; 2] {
        self.version
    }

    /// The format pre-release suffix.
    pub closed spec fn spec_pre_release(&self) -> Option<Seq<char>> {
        match self.pre_release {
            Some(s) => Some(s@),
            None => None,
        }
    }

    /// Opens an archive given its members and its comment.
    ///
    /// Fails with `ZipError` if any member is compressed, then with `ZipMemberMissing` if there
    /// is no index member, then with `NotOmf` (carrying the comment) if the comment does not
    /// hold an OMF version.
    pub fn new(members: Vec<ZipMember>, comment: &[u8]) -> (r: Result<Self, Error>)
        ensures
            (exists|i: int| 0 <= i < members@.len() && !members@[i].stored) ==> (r matches Err(
                Error::ZipError(m),
            ) && m@ == compressed_message()),
            (forall|i: int| 0 <= i < members@.len() ==> members@[i].stored) ==> {
                if forall|i: int| 0 <= i < members@.len() ==> members@[i].name@ != INDEX_NAME@ {
                    r matches Err(Error::ZipMemberMissing(m)) && m@ == INDEX_NAME@
                } else {
                    match spec_get_version(comment@) {
                        None => r matches Err(Error::NotOmf(c)) && c@ == lossy_utf8(comment@),
                        Some((v, pre)) => r matches Ok(a) && a.spec_members() == member_entries(
                            members@,
                        ) && a.spec_version() == v && a.spec_pre_release() == pre,
                    }
                }
            },
    {
        let mut entries: Vec<(String, FileSpan)> = Vec::new();
        let mut index_found = false;
        let mut i: usize = 0;
        while i < members.len()
            invariant
                i <= members@.len(),
                forall|j: int| 0 <= j < i ==> members@[j].stored,
                entries_view(entries@) == member_entries(
                    members@.take(i as int),
                ),
                index_found <==> exists|j: int| 0 <= j < i && members@[j].name@ == INDEX_NAME@,
            decreases members@.len() - i,
        {
            let m = &members[i];
            if !m.stored {
                proof {
                    reveal_strlit("members may not be compressed");
                }
                return Err(Error::ZipError(String::from_str("members may not be compressed")));
            }
            let is_index = str_equal(m.name.as_str(), INDEX_NAME);
            index_found = index_found || is_index;
            let ghost before = entries@;
            let nm = m.name.clone();
            entries.push((nm, m.span));
            proof {
                assert(entries@ == before.push((nm, m.span)));
                assert(nm@ == members@[i as int].name@);
                assert(entries_view(before).len() == before.len());
                assert(member_entries(members@.take(i as int)).len() == i);
                assert(before.len() == i);
                assert(entries@.len() == i + 1);
                let me = member_entries(members@.take(i + 1));
                let ev = entries_view(entries@);
                assert forall|j: int| 0 <= j < i + 1 implies ev[j] == me[j] by {
                    if j < i {
                        assert(ev[j] == entries_view(before)[j]);
                        assert(me[j] == member_entries(members@.take(i as int))[j]);
                    }
                }
                assert(members@.take(i + 1) =~= members@.take(i as int).push(members@[i as int]));
                assert(entries_view(entries@) =~= member_entries(
                    members@.take(i + 1),
                ));
            }
            i += 1;
        }
        assert(members@.take(i as int) =~= members@);
        if !index_found {
            return Err(Error::ZipMemberMissing(String::from_str(INDEX_NAME)));
        }
        match get_version(comment) {
            Some((version, pre_release)) => {
                let a = Archive { members: entries, version, pre_release };
                assert(a.spec_members() == member_entries(members@));
                Ok(a)
            },
            None => Err(Error::NotOmf(string_from_utf8_lossy(comment))),
        }
    }

    /// The format version and pre-release suffix.
    pub fn version(&self) -> (r: ([u32; 2], Option<&str>))
        ensures
            r.0 == self.spec_version(),
            opt_view(r.1) == self.spec_pre_release(),
    {
        let pre = match &self.pre_release {
            Some(s) => Some(s.as_str()),
            None => None,
        };
        (self.version, pre)
    }

    /// The member names, each once.
    pub fn filenames(&self) -> (r: Vec<String>)
        ensures
            forall|i: int, j: int|
                0 <= i < j < r@.len() ==> r@[i]@ != r@[j]@,
            strings_view(r@).to_set() == self.spec_members().map_values(
                |e: (Seq<char>, FileSpan)| e.0,
            ).to_set(),
    {
        let ghost ms = self.spec_members();
        let mut r: Vec<String> = Vec::new();
        let mut i: usize = 0;
        while i < self.members.len()
            invariant
                i <= self.members@.len(),
                ms == self.spec_members(),
                ms.len() == self.members@.len(),
                forall|a: int, b: int| 0 <= a < b < r@.len() ==> r@[a]@ != r@[b]@,
                forall|a: int| 0 <= a < r@.len() ==> last_named_before(ms, #[trigger] r@[a]@, i as int),
                forall|k: int| 0 <= k < i && is_last_named(ms, k, ms[k].0) ==> exists|a: int|
                    0 <= a < r@.len() && r@[a]@ == ms[k].0,
            decreases self.members@.len() - i,
        {
            let name = &self.members[i].0;
            assert(name@ == ms[i as int].0);
            let mut later = false;
            let mut j: usize = i + 1;
            while j < self.members.len()
                invariant
                    i < j <= self.members@.len(),
                    ms == self.spec_members(),
                    ms.len() == self.members@.len(),
                    name@ == ms[i as int].0,
                    later <==> exists|k: int| i < k < j && ms[k].0 == name@,
                decreases self.members@.len() - j,
            {
                if str_equal(self.members[j].0.as_str(), name.as_str()) {
                    assert(ms[j as int].0 == self.members@[j as int].0@);
                    later = true;
                } else {
                    assert(ms[j as int].0 == self.members@[j as int].0@);
                }
                j += 1;
            }
            let ghost old_r = r@;
            if !later {
                proof {
                    assert(is_last_named(ms, i as int, name@));
                    assert forall|a: int| 0 <= a < r@.len() implies r@[a]@ != name@ by {
                        assert(last_named_before(ms, r@[a]@, i as int));
                        let k = choose|k: int| 0 <= k < i && is_last_named(ms, k, r@[a]@);
                        if r@[a]@ == name@ {
                            assert(ms[i as int].0 == r@[a]@);
                        }
                    }
                }
                let nm = name.clone();
                r.push(nm);
                assert(r@ == old_r.push(nm));
            }
            proof {
                assert forall|a: int| 0 <= a < r@.len() implies last_named_before(
                    ms, #[trigger] r@[a]@, i + 1) by {
                    if a < old_r.len() {
                        assert(r@[a] == old_r[a]);
                        assert(last_named_before(ms, old_r[a]@, i as int));
                        let k = choose|k: int| 0 <= k < i && is_last_named(ms, k, old_r[a]@);
                        assert(0 <= k < i + 1 && is_last_named(ms, k, r@[a]@));
                    } else {
                        assert(is_last_named(ms, i as int, r@[a]@));
                    }
                }
                assert forall|k: int| 0 <= k < i + 1 && is_last_named(ms, k, ms[k].0) implies exists|
                    a: int,
                | 0 <= a < r@.len() && r@[a]@ == ms[k].0 by {
                    if k == i {
                        assert(!later);
                        assert(r@[r@.len() - 1]@ == ms[k].0);
                    } else {
                        let a = choose|a: int| 0 <= a < old_r.len() && old_r[a]@ == ms[k].0;
                        assert(r@[a] == old_r[a]);
                    }
                }
            }
            i += 1;
        }
        proof {
            let rs = strings_view(r@);
            let ns = ms.map_values(|e: (Seq<char>, FileSpan)| e.0);
            assert forall|n: Seq<char>| rs.to_set().contains(n) <==> ns.to_set().contains(n) by {
                if ns.contains(n) {
                    let k0 = choose|k: int| 0 <= k < ns.len() && ns[k] == n;
                    assert(ms[k0].0 == n);
                    lemma_last_named_exists(ms, k0, n);
                    let k = choose|k: int| is_last_named(ms, k, n);
                    let a = choose|a: int| 0 <= a < r@.len() && r@[a]@ == ms[k].0;
                    assert(rs[a] == n);
                }
                if rs.contains(n) {
                    let a = choose|a: int| 0 <= a < rs.len() && rs[a] == n;
                    assert(r@[a]@ == n);
                    assert(last_named_before(ms, r@[a]@, i as int));
                    let k = choose|k: int| 0 <= k < i && is_last_named(ms, k, r@[a]@);
                    assert(ns[k] == n);
                }
            }
            assert(rs.to_set() =~= ns.to_set());
        }
        r
    }

    /// Where the named member's data lies, or `ZipMemberMissing` if there is no such member.
    pub fn span(&self, name: &str) -> (r: Result<FileSpan, Error>)
        ensures
            match r {
                Ok(s) => exists|i: int| is_last_named(self.spec_members(), i, name@)
                    && self.spec_members()[i].1 == s,
                Err(e) => {
                    &&& forall|i: int|
                        0 <= i < self.spec_members().len() ==> self.spec_members()[i].0 != name@
                    &&& e matches Error::ZipMemberMissing(m) && m@ == name@
                },
            },
    {
        let ghost ms = self.spec_members();
        let mut i = self.members.len();
        while i > 0
            invariant
                i <= self.members@.len(),
                ms == self.spec_members(),
                ms.len() == self.members@.len(),
                forall|k: int| i <= k < ms.len() ==> ms[k].0 != name@,
            decreases i,
        {
            i -= 1;
            assert(ms[i as int].0 == self.members@[i as int].0@);
            if str_equal(self.members[i].0.as_str(), name) {
                assert(is_last_named(ms, i as int, name@));
                return Ok(self.members[i].1);
            }
        }
        Err(Error::ZipMemberMissing(String::from_str(name)))
    }
}

/// A name that occurs among members occurs a last time.
proof fn lemma_last_named_exists(ms: Seq<(Seq<char>, FileSpan)>, k: int, n: Seq<char>)
    requires
        0 <= k < ms.len(),
        ms[k].0 == n,
    ensures
        exists|i: int| is_last_named(ms, i, n),
    decreases ms.len() - k,
{
    if !is_last_named(ms, k, n) {
        let j = choose|j: int| k < j < ms.len() && ms[j].0 == n;
        lemma_last_named_exists(ms, j, n);
    }
}

} // verus!

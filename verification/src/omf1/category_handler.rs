//! Turning OMF v1 mapped data and its legends into a category attribute.

use vstd::prelude::*;
use vstd::utf8::encode_utf8;

use crate::text::{decimal, push_decimal, str_equal};
use crate::zip_container::strings_view;

verus! {

/// Takes the first `len` items of `input`, padding with clones of `pad` if there are fewer.
pub fn iter_to_len<T: Clone>(len: usize, input: Vec<T>, pad: T) -> (r: Vec<T>)
    ensures
        r@.len() == len,
        forall|i: int| 0 <= i < len && i < input@.len() ==> r@[i] == input@[i],
        forall|i: int| input@.len() <= i < len ==> cloned::<T>(pad, #[trigger] r@[i]),
{
    let mut out = input;
    out.resize(len, pad);
    out
}

/// The data of an OMF v1 legend, as far as choosing category names and colors needs it.
/// Other kinds of data (numbers, dates) are carried as they are, with their length.
pub enum LegendData<D> {
    /// Colors.
    Color(Vec<[u8; 3]>),
    /// Text.
    String(Vec<String>),
    /// Any other data, and its length.
    Other(D, usize),
}

impl<D> LegendData<D> {
    /// The number of values.
    pub open spec fn spec_len(&self) -> nat {
        match self {
            LegendData::Color(c) => c@.len(),
            LegendData::String(s) => s@.len(),
            LegendData::Other(_, n) => *n as nat,
        }
    }

    /// Returns the number of values.
    pub fn len(&self) -> (r: usize)
        ensures
            r == self.spec_len(),
    {
        match self {
            LegendData::Color(c) => c.len(),
            LegendData::String(s) => s.len(),
            LegendData::Other(_, n) => *n,
        }
    }
}

/// An OMF v1 legend: named data, one value per category.
pub struct Legend<D> {
    pub name: String,
    pub description: String,
    pub data: LegendData<D>,
}

/// The number of distinct non-empty strings.
pub open spec fn distinct_nonempty(s: Seq<Seq<char>>) -> nat
    decreases s.len(),
{
    if s.len() == 0 {
        0
    } else {
        distinct_nonempty(s.drop_last()) + if s.last().len() > 0 && !s.drop_last().contains(
            s.last(),
        ) {
            1nat
        } else {
            0nat
        }
    }
}

/// The total length of the strings in bytes.
pub open spec fn total_bytes(s: Seq<Seq<char>>) -> nat
    decreases s.len(),
{
    if s.len() == 0 {
        0
    } else {
        total_bytes(s.drop_last()) + encode_utf8(s.last()).len()
    }
}

/// The number of distinct colors.
pub open spec fn distinct_colors(s: Seq<[u8; 3]>) -> nat
    decreases s.len(),
{
    if s.len() == 0 {
        0
    } else {
        distinct_colors(s.drop_last()) + if !s.drop_last().contains(s.last()) {
            1nat
        } else {
            0nat
        }
    }
}

proof fn lemma_encode_empty(s: Seq<char>)
    ensures
        (encode_utf8(s).len() == 0) == (s.len() == 0),
{
    if s.len() > 0 {
        assert(encode_utf8(s) == vstd::utf8::encode_scalar(s[0] as u32) + encode_utf8(
            s.drop_first(),
        ));
    }
}

proof fn lemma_total_bytes_bound(s: Seq<Seq<char>>, bound: nat)
    requires
        forall|i: int| 0 <= i < s.len() ==> encode_utf8(#[trigger] s[i]).len() <= bound,
    ensures
        total_bytes(s) <= s.len() * bound,
    decreases s.len(),
{
    if s.len() > 0 {
        lemma_total_bytes_bound(s.drop_last(), bound);
        assert(s.last() == s[s.len() - 1]);
        assert((s.len() - 1) * bound + bound == s.len() * bound) by (nonlinear_arith);
    }
}

/// How good a legend is as category names: the number of distinct non-empty strings and
/// their total length in bytes.
fn names_score(strings: &Vec<String>) -> (r: (usize, u128))
    ensures
        r.0 == distinct_nonempty(strings_view(strings@)),
        r.1 == total_bytes(strings_view(strings@)),
{
    let ghost sv = strings_view(strings@);
    let mut unique: usize = 0;
    let mut total: u128 = 0;
    let mut i: usize = 0;
    while i < strings.len()
        invariant
            i <= strings@.len(),
            sv == strings_view(strings@),
            sv.len() == strings@.len(),
            unique <= i,
            unique == distinct_nonempty(sv.take(i as int)),
            total == total_bytes(sv.take(i as int)),
            total <= i * 0x1_0000_0000_0000_0000,
        decreases strings@.len() - i,
    {
        let s = strings[i].as_str();
        assert(s@ == sv[i as int]);
        let n = s.as_bytes().len();
        proof {
            lemma_encode_empty(s@);
            assert(sv.take(i + 1).drop_last() =~= sv.take(i as int));
            assert(sv.take(i + 1).last() == sv[i as int]);
            assert(i * 0x1_0000_0000_0000_0000 + 0x1_0000_0000_0000_0000 == (i + 1)
                * 0x1_0000_0000_0000_0000) by (nonlinear_arith);
            assert((i + 1) * 0x1_0000_0000_0000_0000 <= 0x1_0000_0000_0000_0000
                * 0x1_0000_0000_0000_0000) by (nonlinear_arith)
                requires
                    i + 1 <= 0x1_0000_0000_0000_0000,
            ;
        }
        assert(n == encode_utf8(s@).len());
        total = total + n as u128;
        assert(total_bytes(sv.take(i + 1)) == total_bytes(sv.take(i as int)) + encode_utf8(
            sv[i as int],
        ).len());
        let ghost old_unique = unique;
        if n > 0 {
            let mut seen = false;
            let mut j: usize = 0;
            while j < i
                invariant
                    j <= i < strings@.len(),
                    sv == strings_view(strings@),
                    sv.len() == strings@.len(),
                    s@ == sv[i as int],
                    seen <==> exists|k: int| 0 <= k < j && sv[k] == s@,
                decreases i - j,
            {
                if str_equal(strings[j].as_str(), s) {
                    seen = true;
                }
                assert(sv[j as int] == strings@[j as int]@);
                j += 1;
            }
            proof {
                let p = sv.take(i as int);
                if seen {
                    let k = choose|k: int| 0 <= k < i && sv[k] == s@;
                    assert(p[k] == s@);
                } else {
                    assert forall|k: int| 0 <= k < p.len() implies p[k] != s@ by {
                        assert(p[k] == sv[k]);
                    }
                }
            }
            if !seen {
                unique = unique + 1;
            }
        }
        let ghost cur = sv[i as int];
        assert(distinct_nonempty(sv.take(i + 1)) == distinct_nonempty(sv.take(i as int)) + if cur.len()
            > 0 && !sv.take(i as int).contains(cur) {
            1nat
        } else {
            0nat
        });
        i += 1;
    }
    assert(sv.take(i as int) =~= sv);
    (unique, total)
}

/// How good a legend is as category colors: the number of distinct colors.
fn gradient_score(colors: &Vec<[u8; 3]>) -> (r: usize)
    ensures
        r == distinct_colors(colors@),
{
    let mut unique: usize = 0;
    let mut i: usize = 0;
    while i < colors.len()
        invariant
            i <= colors@.len(),
            unique <= i,
            unique == distinct_colors(colors@.take(i as int)),
        decreases colors@.len() - i,
    {
        let c = colors[i];
        let mut seen = false;
        let mut j: usize = 0;
        while j < i
            invariant
                j <= i < colors@.len(),
                c == colors@[i as int],
                seen <==> exists|k: int| 0 <= k < j && colors@[k] == c,
            decreases i - j,
        {
            let d = colors[j];
            if d[0] == c[0] && d[1] == c[1] && d[2] == c[2] {
                assert(d =~= c);
                seen = true;
            } else {
                assert(d != c) by {
                    if d == c {
                        assert(d[0] == c[0]);
                    }
                }
            }
            j += 1;
        }
        proof {
            let p = colors@.take(i as int);
            assert(colors@.take(i + 1).drop_last() =~= p);
            assert(colors@.take(i + 1).last() == c);
            if seen {
                let k = choose|k: int| 0 <= k < i && colors@[k] == c;
                assert(p[k] == c);
            } else {
                assert forall|k: int| 0 <= k < p.len() implies p[k] != c by {
                    assert(p[k] == colors@[k]);
                }
            }
        }
        if !seen {
            unique = unique + 1;
        }
        i += 1;
    }
    assert(colors@.take(i as int) =~= colors@);
    unique
}

/// The ranking key of a string legend as category names: more distinct non-empty names is
/// better, then a shorter total length, then a later position. This follows the conversion
/// rules, which pick "the most unique, least empty, and shortest string legend".
pub open spec fn names_key<D>(legends: Seq<Legend<D>>, i: int) -> (nat, nat) {
    match legends[i].data {
        LegendData::String(s) => (distinct_nonempty(strings_view(s@)), total_bytes(
            strings_view(s@),
        )),
        _ => (0, 0),
    }
}

/// True if legend `j` ranks below legend `k` as category names.
pub open spec fn names_below<D>(legends: Seq<Legend<D>>, j: int, k: int) -> bool {
    let a = names_key(legends, j);
    let b = names_key(legends, k);
    a.0 < b.0 || (a.0 == b.0 && (a.1 > b.1 || (a.1 == b.1 && j < k)))
}

/// True if legend `k` is the string legend that ranks first as category names.
pub open spec fn best_names<D>(legends: Seq<Legend<D>>, k: int) -> bool {
    &&& 0 <= k < legends.len()
    &&& legends[k].data is String
    &&& forall|j: int|
        0 <= j < legends.len() && j != k && (#[trigger] legends[j]).data is String ==> names_below(
            legends,
            j,
            k,
        )
}

/// The ranking key of a color legend as category colors: more distinct colors is better,
/// then a later position.
pub open spec fn gradient_key<D>(legends: Seq<Legend<D>>, i: int) -> nat {
    match legends[i].data {
        LegendData::Color(c) => distinct_colors(c@),
        _ => 0,
    }
}

/// True if legend `k` is the color legend that ranks first as category colors.
pub open spec fn best_gradient<D>(legends: Seq<Legend<D>>, k: int) -> bool {
    &&& 0 <= k < legends.len()
    &&& legends[k].data is Color
    &&& forall|j: int|
        0 <= j < legends.len() && j != k && (#[trigger] legends[j]).data is Color ==> (
        gradient_key(legends, j) < gradient_key(legends, k) || (gradient_key(legends, j)
            == gradient_key(legends, k) && j < k))
}

/// The default category names: `Category0`, `Category1`, and so on.
pub open spec fn default_names(len: nat) -> Seq<Seq<char>> {
    Seq::new(len, |i: int| "Category"@ + decimal(i as nat))
}

/// The number of categories that indices up to `max_index` need: one more than the largest
/// index, so that every index has a category (at most `usize::MAX`).
pub open spec fn category_count(max_index: u32) -> nat {
    if max_index + 1 <= usize::MAX {
        (max_index + 1) as nat
    } else {
        usize::MAX as nat
    }
}

/// The largest length of the legends' data.
pub open spec fn max_len<D>(legends: Seq<Legend<D>>) -> nat
    decreases legends.len(),
{
    if legends.len() == 0 {
        0
    } else {
        let m = max_len(legends.drop_last());
        if legends.last().data.spec_len() > m {
            legends.last().data.spec_len()
        } else {
            m
        }
    }
}

/// Collects the legends of OMF v1 mapped data and turns them into category names, colors,
/// and extra attributes.
pub struct CategoryHandler<D> {
    max_index: u32,
    len: usize,
    legends: Vec<Legend<D>>,
    names: Vec<String>,
    gradient: Option<Vec<[u8; 3]>>,
}

impl<D> CategoryHandler<D> {
    /// The legends not yet used as names or colors.
    pub closed spec fn spec_legends(&self) -> Seq<Legend<D>> {
        self.legends@
    }

    /// The number of categories.
    pub closed spec fn spec_len(&self) -> usize {
        self.len
    }

    /// The category names.
    pub closed spec fn spec_names(&self) -> Seq<Seq<char>> {
        strings_view(self.names@)
    }

    /// The category colors, if any.
    pub closed spec fn spec_gradient(&self) -> Option<Seq<[u8; 3]>> {
        match self.gradient {
            Some(g) => Some(g@),
            None => None,
        }
    }

    /// The largest category index in the data.
    pub closed spec fn spec_max_index(&self) -> u32 {
        self.max_index
    }

    /// A handler for mapped data whose largest index is `max_index`, with no legends yet.
    pub fn new(max_index: u32) -> (r: Self)
        ensures
            r.spec_max_index() == max_index,
            r.spec_len() == 0,
            r.spec_legends().len() == 0,
            r.spec_names().len() == 0,
            r.spec_gradient() is None,
    {
        let r = CategoryHandler {
            max_index,
            len: 0,
            legends: Vec::new(),
            names: Vec::new(),
            gradient: None,
        };
        assert(r.spec_names() =~= Seq::<Seq<char>>::empty());
        r
    }

    /// Adds a legend.
    pub fn add(&mut self, legend: Legend<D>)
        ensures
            final(self).spec_legends() == old(self).spec_legends().push(legend),
            final(self).spec_max_index() == old(self).spec_max_index(),
            final(self).spec_len() == old(self).spec_len(),
            final(self).spec_names() == old(self).spec_names(),
            final(self).spec_gradient() == old(self).spec_gradient(),
    {
        self.legends.push(legend);
    }

    /// Chooses the category names and colors.
    ///
    /// The number of categories is the largest of the legends' lengths and one more than the
    /// largest index, so that every index has a name. The string legend with the most distinct non-empty names, then the shortest
    /// total length, then the latest position becomes the names; without one the names are
    /// `Category0`, `Category1`, and so on. Of the legends left, the color legend with the
    /// most distinct colors, then the latest position, becomes the colors. Both are taken out
    /// of the legends.
    pub fn process(&mut self)
        ensures
            final(self).spec_max_index() == old(self).spec_max_index(),
            final(self).spec_len() == if max_len(old(self).spec_legends())
                > category_count(old(self).spec_max_index()) {
                max_len(old(self).spec_legends())
            } else {
                category_count(old(self).spec_max_index())
            },
            ({
                let ls = old(self).spec_legends();
                if exists|k: int| best_names(ls, k) {
                    exists|k: int|
                        best_names(ls, k) && (ls[k].data matches LegendData::String(s)
                            && final(self).spec_names() == strings_view(s@)) && gradient_from(
                            ls.remove(k),
                            *final(self),
                        )
                } else {
                    &&& final(self).spec_names() == default_names(final(self).spec_len() as nat)
                    &&& gradient_from(ls, *final(self))
                }
            }),
    {
        let ghost ls = self.legends@;
        // The number of categories.
        let mut m: usize = 0;
        let mut i: usize = 0;
        while i < self.legends.len()
            invariant
                i <= self.legends@.len(),
                ls == self.legends@,
                m == max_len(ls.take(i as int)),
            decreases self.legends@.len() - i,
        {
            let n = self.legends[i].data.len();
            assert(ls.take(i + 1).drop_last() =~= ls.take(i as int));
            assert(ls.take(i + 1).last() == ls[i as int]);
            if n > m {
                m = n;
            }
            i += 1;
        }
        assert(ls.take(i as int) =~= ls);
        let mi = (self.max_index as usize).saturating_add(1);
        self.len = if m > mi {
            m
        } else {
            mi
        };
        // The names.
        let mut best: Option<(usize, usize, u128)> = None;
        let mut i: usize = 0;
        while i < self.legends.len()
            invariant
                i <= self.legends@.len(),
                ls == self.legends@,
                best is None ==> forall|j: int| 0 <= j < i ==> !(ls[j].data is String),
                best matches Some(b) ==> b.0 < i && best_names(ls.take(i as int), b.0 as int)
                    && names_key(ls, b.0 as int) == (b.1 as nat, b.2 as nat),
            decreases self.legends@.len() - i,
        {
            if let LegendData::String(strings) = &self.legends[i].data {
                let (u, t) = names_score(strings);
                let replace = match best {
                    None => true,
                    Some((_, bu, bt)) => u > bu || (u == bu && t <= bt),
                };
                proof {
                    let p = ls.take(i + 1);
                    assert(names_key(ls, i as int) == (u as nat, t as nat));
                    assert forall|j: int| 0 <= j <= i implies #[trigger] p[j] == ls[j] by {}
                    if replace {
                        assert forall|j: int|
                            0 <= j < p.len() && j != i && (#[trigger] p[j]).data is String
                            implies names_below(p, j, i as int) by {
                            assert(p[j] == ls[j]);
                            if let Some(b) = best {
                                if j != b.0 {
                                    assert(ls.take(i as int)[j] == ls[j]);
                                    assert(names_below(ls.take(i as int), j, b.0 as int));
                                }
                            }
                        }
                        assert(best_names(p, i as int));
                    } else {
                        let b = best->Some_0;
                        assert forall|j: int|
                            0 <= j < p.len() && j != b.0 && (#[trigger] p[j]).data is String
                            implies names_below(p, j, b.0 as int) by {
                            if j < i {
                                assert(ls.take(i as int)[j] == ls[j]);
                            }
                        }
                        assert(best_names(p, b.0 as int));
                    }
                }
                if replace {
                    best = Some((i, u, t));
                }
            } else {
                proof {
                    let p = ls.take(i + 1);
                    if let Some(b) = best {
                        assert forall|j: int|
                            0 <= j < p.len() && j != b.0 && (#[trigger] p[j]).data is String
                            implies names_below(p, j, b.0 as int) by {
                            assert(j < i);
                            assert(ls.take(i as int)[j] == ls[j]);
                        }
                        assert(best_names(p, b.0 as int));
                    }
                }
            }
            i += 1;
        }
        assert(ls.take(i as int) =~= ls);
        let ghost rest = ls;
        match best {
            Some((k, _, _)) => {
                let legend = self.legends.remove(k);
                proof {
                    rest = ls.remove(k as int);
                }
                match legend.data {
                    LegendData::String(names) => {
                        self.names = names;
                    },
                    _ => {
                        proof {
                            assert(false);
                        }
                    },
                }
            },
            None => {
                proof {
                    reveal_strlit("Category");
                    assert forall|k: int| !best_names(ls, k) by {
                        if 0 <= k < ls.len() {
                            assert(!(ls[k].data is String));
                        }
                    }
                }
                let mut names: Vec<String> = Vec::new();
                let mut c: usize = 0;
                while c < self.len
                    invariant
                        c <= self.len,
                        strings_view(names@) == default_names(c as nat),
                    decreases self.len - c,
                {
                    let mut name = String::from_str("Category");
                    push_decimal(&mut name, c as u64);
                    let ghost before = names@;
                    names.push(name);
                    assert(names@ == before.push(name));
                    assert(strings_view(before).len() == before.len());
                    assert(before.len() == c);
                    assert(strings_view(names@).len() == names@.len());
                    assert forall|j: int| 0 <= j < c + 1 implies strings_view(names@)[j]
                        == default_names((c + 1) as nat)[j] by {
                        if j < c {
                            assert(strings_view(names@)[j] == names@[j]@);
                            assert(strings_view(before)[j] == before[j]@);
                            assert(default_names(c as nat)[j] == default_names((c + 1) as nat)[j]);
                        }
                    }
                    assert(strings_view(names@) =~= default_names((c + 1) as nat));
                    c += 1;
                }
                self.names = names;
            },
        }
        assert(self.legends@ == rest);
        // The colors.
        let mut gbest: Option<(usize, usize)> = None;
        let mut i: usize = 0;
        while i < self.legends.len()
            invariant
                i <= self.legends@.len(),
                rest == self.legends@,
                gbest is None ==> forall|j: int| 0 <= j < i ==> !(rest[j].data is Color),
                gbest matches Some(b) ==> b.0 < i && best_gradient(rest.take(i as int), b.0 as int)
                    && gradient_key(rest, b.0 as int) == b.1,
            decreases self.legends@.len() - i,
        {
            if let LegendData::Color(colors) = &self.legends[i].data {
                let u = gradient_score(colors);
                let replace = match gbest {
                    None => true,
                    Some((_, bu)) => u >= bu,
                };
                proof {
                    let p = rest.take(i + 1);
                    assert(gradient_key(rest, i as int) == u);
                    assert forall|j: int| 0 <= j <= i implies #[trigger] p[j] == rest[j] by {}
                    if replace {
                        assert forall|j: int|
                            0 <= j < p.len() && j != i && (#[trigger] p[j]).data is Color implies (
                            gradient_key(p, j) < gradient_key(p, i as int) || (gradient_key(p, j)
                                == gradient_key(p, i as int) && j < i)) by {
                            assert(p[j] == rest[j]);
                            if let Some(b) = gbest {
                                if j != b.0 {
                                    assert(rest.take(i as int)[j] == rest[j]);
                                    assert(rest.take(i as int)[j].data is Color);
                                }
                            }
                        }
                        assert(best_gradient(p, i as int));
                    } else {
                        let b = gbest->Some_0;
                        assert forall|j: int|
                            0 <= j < p.len() && j != b.0 && (#[trigger] p[j]).data is Color
                            implies (gradient_key(p, j) < gradient_key(p, b.0 as int) || (
                            gradient_key(p, j) == gradient_key(p, b.0 as int) && j < b.0)) by {
                            if j < i {
                                assert(rest.take(i as int)[j] == rest[j]);
                                assert(rest.take(i as int)[j].data is Color);
                            }
                        }
                        assert(best_gradient(p, b.0 as int));
                    }
                }
                if replace {
                    gbest = Some((i, u));
                }
            } else {
                proof {
                    let p = rest.take(i + 1);
                    if let Some(b) = gbest {
                        assert forall|j: int|
                            0 <= j < p.len() && j != b.0 && (#[trigger] p[j]).data is Color
                            implies (gradient_key(p, j) < gradient_key(p, b.0 as int) || (
                            gradient_key(p, j) == gradient_key(p, b.0 as int) && j < b.0)) by {
                            assert(j < i);
                            assert(rest.take(i as int)[j] == rest[j]);
                            assert(rest.take(i as int)[j].data is Color);
                        }
                        assert(best_gradient(p, b.0 as int));
                    }
                }
            }
            i += 1;
        }
        assert(rest.take(i as int) =~= rest);
        match gbest {
            Some((k, _)) => {
                let legend = self.legends.remove(k);
                match legend.data {
                    LegendData::Color(colors) => {
                        self.gradient = Some(colors);
                    },
                    _ => {
                        proof {
                            assert(false);
                        }
                    },
                }
            },
            None => {
                proof {
                    assert forall|k: int| !best_gradient(rest, k) by {
                        if 0 <= k < rest.len() {
                            assert(!(rest[k].data is Color));
                        }
                    }
                }
                self.gradient = None;
            },
        }
    }

    /// The number of categories.
    pub fn len(&self) -> (r: usize)
        ensures
            r == self.spec_len(),
    {
        self.len
    }

    /// Takes the handler apart: the number of categories, the names, the colors if any, and
    /// the legends left to become extra attributes.
    pub fn into_parts(self) -> (r: (usize, Vec<String>, Option<Vec<[u8; 3]>>, Vec<Legend<D>>))
        ensures
            r.0 == self.spec_len(),
            strings_view(r.1@) == self.spec_names(),
            (match r.2 {
                Some(g) => Some(g@),
                None => None,
            }) == self.spec_gradient(),
            r.3@ == self.spec_legends(),
    {
        (self.len, self.names, self.gradient, self.legends)
    }
}

/// True if `h` took its colors from `rest` and holds the legends of `rest` left over.
pub open spec fn gradient_from<D>(rest: Seq<Legend<D>>, h: CategoryHandler<D>) -> bool {
    if exists|k: int| best_gradient(rest, k) {
        exists|k: int|
            best_gradient(rest, k) && (rest[k].data matches LegendData::Color(c)
                && h.spec_gradient() == Some(c@)) && h.spec_legends() == rest.remove(k)
    } else {
        h.spec_gradient() is None && h.spec_legends() == rest
    }
}

/// A color with full opacity.
pub open spec fn opaque(c: [u8; 3]) -> [u8; 4] {
    [c[0], c[1], c[2], 255u8]
}

/// Makes each color of a legend or gradient fully opaque.
pub fn opaque_colors(colors: Vec<[u8; 3]>) -> (r: Vec<[u8; 4]>)
    ensures
        r@.len() == colors@.len(),
        forall|i: int| 0 <= i < colors@.len() ==> r@[i] == opaque(#[trigger] colors@[i]),
{
    let mut out: Vec<[u8; 4]> = Vec::new();
    let mut i: usize = 0;
    while i < colors.len()
        invariant
            i <= colors@.len(),
            out@.len() == i,
            forall|j: int| 0 <= j < i ==> out@[j] == opaque(#[trigger] colors@[j]),
        decreases colors@.len() - i,
    {
        let c = colors[i];
        let o = [c[0], c[1], c[2], 255u8];
        assert(o =~= opaque(c));
        out.push(o);
        i += 1;
    }
    out
}

/// Turns the colors of a color legend into attribute values: each present and fully opaque.
pub fn legend_colors(colors: Vec<[u8; 3]>) -> (r: Vec<Option<[u8; 4]>>)
    ensures
        r@.len() == colors@.len(),
        forall|i: int| 0 <= i < colors@.len() ==> r@[i] == Some(opaque(#[trigger] colors@[i])),
{
    let mut out: Vec<Option<[u8; 4]>> = Vec::new();
    let mut i: usize = 0;
    while i < colors.len()
        invariant
            i <= colors@.len(),
            out@.len() == i,
            forall|j: int| 0 <= j < i ==> out@[j] == Some(opaque(#[trigger] colors@[j])),
        decreases colors@.len() - i,
    {
        let c = colors[i];
        let o = [c[0], c[1], c[2], 255u8];
        assert(o =~= opaque(c));
        out.push(Some(o));
        i += 1;
    }
    out
}

/// Turns the strings of a string legend into attribute values: an empty string is null.
pub fn legend_strings(strings: Vec<String>) -> (r: Vec<Option<String>>)
    ensures
        r@.len() == strings@.len(),
        forall|i: int| 0 <= i < strings@.len() ==> (if (#[trigger] strings@[i])@.len() == 0 {
            r@[i] is None
        } else {
            r@[i] matches Some(s) && s@ == strings@[i]@
        }),
{
    let mut out: Vec<Option<String>> = Vec::new();
    let ghost all = strings@;
    let n = strings.len();
    assert(all.len() == n);
    let mut rest = strings;
    let mut i: usize = 0;
    let mut pending: Vec<String> = Vec::new();
    while rest.len() > 0
        invariant
            rest@ + pending@.reverse() == all,
        decreases rest@.len(),
    {
        let ghost before_rest = rest@;
        let ghost before_p = pending@;
        match rest.pop() {
            Some(s) => {
                pending.push(s);
                assert(before_p.push(s).reverse() =~= seq![s] + before_p.reverse());
                assert(before_rest =~= rest@.push(s));
                assert(rest@ + pending@.reverse() =~= before_rest + before_p.reverse());
            },
            None => {},
        }
    }
    assert(pending@.reverse() =~= all);
    while pending.len() > 0
        invariant
            pending@.reverse() == all.skip(i as int),
            i + pending@.len() == all.len(),
            all.len() <= usize::MAX,
            out@.len() == i,
            forall|j: int| 0 <= j < i ==> (if (#[trigger] all[j])@.len() == 0 {
                out@[j] is None
            } else {
                out@[j] matches Some(s) && s@ == all[j]@
            }),
        decreases pending@.len(),
    {
        let ghost before_p = pending@;
        match pending.pop() {
            Some(s) => {
                proof {
                    assert(before_p =~= pending@.push(s));
                    assert(before_p.reverse() =~= seq![s] + pending@.reverse());
                    assert(all.skip(i as int)[0] == s);
                    assert(all[i as int] == s);
                    assert(all.skip(i + 1) =~= all.skip(i as int).drop_first());
                }
                if s.as_str().unicode_len() == 0 {
                    out.push(None);
                } else {
                    out.push(Some(s));
                }
                i += 1;
            },
            None => {},
        }
    }
    out
}

} // verus!

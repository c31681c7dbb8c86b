//! Framework versions: the known release list, template-tag rules and the
//! iteration over adjacent upgrade steps.
use vstd::prelude::*;
use vstd::string::StringSliceAdditionalSpecFns;
use crate::bytes::{ascii_chars, ascii_string, bytes_eq, dec_digits, is_ascii_bytes, push_decimal};

verus! {

#[derive(Clone, Copy, Debug, PartialEq, Eq, Structural)]
pub struct FrameworkVersion {
    pub major: u64,
    pub minor: u64,
    pub patch: u64,
}

pub open spec fn fv(major: u64, minor: u64, patch: u64) -> FrameworkVersion {
    FrameworkVersion { major, minor, patch }
}

/// Lexicographic order on (major, minor, patch).
pub open spec fn version_lt(a: FrameworkVersion, b: FrameworkVersion) -> bool {
    a.major < b.major || (a.major == b.major && (a.minor < b.minor || (a.minor == b.minor
        && a.patch < b.patch)))
}

pub open spec fn version_le(a: FrameworkVersion, b: FrameworkVersion) -> bool {
    version_lt(a, b) || a == b
}

/// The text `major.minor.patch`.
pub open spec fn version_text(v: FrameworkVersion) -> Seq<u8> {
    dec_digits(v.major as nat) + seq![46u8] + dec_digits(v.minor as nat) + seq![46u8]
        + dec_digits(v.patch as nat)
}

/// Known framework releases, oldest first.
pub open spec fn known_versions() -> Seq<FrameworkVersion> {
    seq![
        fv(0, 28, 0), fv(0, 29, 0), fv(0, 29, 2), fv(0, 29, 3), fv(0, 30, 0), fv(0, 31, 0),
        fv(0, 31, 1), fv(0, 32, 0), fv(0, 33, 0), fv(0, 33, 1), fv(0, 34, 0), fv(0, 34, 1),
        fv(0, 35, 0), fv(0, 36, 0), fv(0, 36, 1), fv(0, 37, 0), fv(0, 38, 0), fv(0, 39, 0),
        fv(0, 39, 1), fv(0, 39, 2), fv(0, 39, 3), fv(0, 39, 4), fv(0, 39, 5), fv(0, 39, 6),
        fv(0, 39, 7), fv(0, 39, 8), fv(0, 40, 0), fv(0, 40, 1), fv(0, 41, 0), fv(0, 41, 1),
        fv(0, 41, 2), fv(0, 41, 3), fv(0, 42, 0), fv(0, 43, 0), fv(0, 43, 1), fv(0, 43, 2),
        fv(0, 43, 3), fv(0, 43, 4), fv(0, 43, 5), fv(0, 44, 0), fv(0, 45, 0), fv(0, 45, 2),
    ]
}

/// The last version used for upgrades and templates.
pub open spec fn last_version_spec() -> FrameworkVersion {
    fv(0, 45, 2)
}

/// The first version whose templates carry a tag.
pub open spec fn lowest_template_tag_spec() -> FrameworkVersion {
    fv(0, 43, 0)
}

/// The first version whose templates ship an autogenerated wasm crate.
pub open spec fn autogenerated_wasm_spec() -> FrameworkVersion {
    fv(0, 45, 0)
}

/// The first version whose templates ship autogenerated json files.
pub open spec fn autogenerated_json_spec() -> FrameworkVersion {
    fv(0, 44, 0)
}

impl FrameworkVersion {
    pub fn new(major: u64, minor: u64, patch: u64) -> (r: FrameworkVersion)
        ensures
            r == fv(major, minor, patch),
    {
        FrameworkVersion { major, minor, patch }
    }

    /// Strict lexicographic comparison.
    pub fn less_than(&self, other: &FrameworkVersion) -> (r: bool)
        ensures
            r == version_lt(*self, *other),
    {
        self.major < other.major || (self.major == other.major && (self.minor < other.minor || (
        self.minor == other.minor && self.patch < other.patch)))
    }

    /// The text `major.minor.patch` as ASCII bytes.
    pub fn text_bytes(&self) -> (r: Vec<u8>)
        ensures
            r@ == version_text(*self),
    {
        let mut r: Vec<u8> = Vec::new();
        push_decimal(self.major, &mut r);
        r.push(46u8);
        push_decimal(self.minor, &mut r);
        r.push(46u8);
        push_decimal(self.patch, &mut r);
        assert(r@ =~= version_text(*self));
        r
    }

    /// The text `major.minor.patch`.
    pub fn version_string(&self) -> (r: String)
        ensures
            r@ == ascii_chars(version_text(*self)),
    {
        let b = self.text_bytes();
        proof {
            lemma_version_text_ascii(*self);
        }
        ascii_string(b)
    }

    /// Reads a tag written `major.minor.patch`; `None` unless the tag has exactly
    /// three dot-separated, non-empty decimal fields that each fit in `u64`.
    pub fn from_string_template(tag: &str) -> (r: Option<FrameworkVersion>)
        ensures
            r == parse_version(tag.spec_bytes()),
    {
        parse_version_bytes(tag.as_bytes())
    }
}

pub proof fn lemma_dec_digits_ascii(n: nat)
    ensures
        is_ascii_bytes(dec_digits(n)),
        dec_digits(n).len() >= 1,
        forall|i: int| 0 <= i < dec_digits(n).len() ==> 48 <= #[trigger] dec_digits(n)[i] <= 57,
    decreases n,
{
    if n >= 10 {
        lemma_dec_digits_ascii(n / 10);
    }
}

pub proof fn lemma_version_text_ascii(v: FrameworkVersion)
    ensures
        is_ascii_bytes(version_text(v)),
{
    lemma_dec_digits_ascii(v.major as nat);
    lemma_dec_digits_ascii(v.minor as nat);
    lemma_dec_digits_ascii(v.patch as nat);
}

/// State of the tag reader after a prefix: the field being read, the values of
/// the fields read so far, whether the current field has a digit, and failure.
pub struct TagState {
    pub field: nat,
    pub values: Seq<int>,
    pub has_digit: bool,
    pub failed: bool,
}

pub open spec fn tag_start() -> TagState {
    TagState { field: 0, values: seq![0int, 0int, 0int], has_digit: false, failed: false }
}

pub open spec fn tag_step(st: TagState, b: u8) -> TagState {
    if st.failed {
        st
    } else if 48 <= b <= 57 {
        let v = st.values[st.field as int] * 10 + (b - 48);
        if v > u64::MAX {
            TagState { failed: true, ..st }
        } else {
            TagState { values: st.values.update(st.field as int, v), has_digit: true, ..st }
        }
    } else if b == 46 && st.has_digit && st.field < 2 {
        TagState { field: st.field + 1, has_digit: false, ..st }
    } else {
        TagState { failed: true, ..st }
    }
}

pub open spec fn tag_state(s: Seq<u8>) -> TagState
    decreases s.len(),
{
    if s.len() == 0 {
        tag_start()
    } else {
        tag_step(tag_state(s.drop_last()), s.last())
    }
}

/// The version a tag denotes, if it is well formed.
pub open spec fn parse_version(s: Seq<u8>) -> Option<FrameworkVersion> {
    let st = tag_state(s);
    if !st.failed && st.field == 2 && st.has_digit {
        Some(fv(st.values[0] as u64, st.values[1] as u64, st.values[2] as u64))
    } else {
        None
    }
}

proof fn lemma_tag_state_values(s: Seq<u8>)
    ensures
        tag_state(s).values.len() == 3,
        tag_state(s).field <= 2,
        forall|k: int| 0 <= k < 3 ==> 0 <= #[trigger] tag_state(s).values[k] <= u64::MAX,
    decreases s.len(),
{
    if s.len() > 0 {
        lemma_tag_state_values(s.drop_last());
    }
}

fn parse_version_bytes(s: &[u8]) -> (r: Option<FrameworkVersion>)
    ensures
        r == parse_version(s@),
{
    let mut field: usize = 0;
    let mut vals: [u64; 3] = [0, 0, 0];
    let mut has_digit = false;
    let mut i: usize = 0;
    while i < s.len()
        invariant
            i <= s@.len(),
            !tag_state(s@.subrange(0, i as int)).failed,
            tag_state(s@.subrange(0, i as int)).field == field,
            tag_state(s@.subrange(0, i as int)).has_digit == has_digit,
            field <= 2,
            forall|k: int|
                0 <= k < 3 ==> #[trigger] tag_state(s@.subrange(0, i as int)).values[k]
                    == vals@[k] as int,
            tag_state(s@.subrange(0, i as int)).values.len() == 3,
        decreases s@.len() - i,
    {
        let b = s[i];
        let ghost pre = s@.subrange(0, i as int);
        proof {
            assert(s@.subrange(0, i + 1).drop_last() =~= pre);
            assert(s@.subrange(0, i + 1).last() == b);
        }
        if 48 <= b && b <= 57 {
            let cur = vals[field];
            if cur > (u64::MAX - (b - 48) as u64) / 10 {
                proof {
                    lemma_failed_stays(s@, i as int + 1);
                }
                return None;
            }
            vals[field] = cur * 10 + (b - 48) as u64;
            has_digit = true;
            proof {
                let st2 = tag_state(s@.subrange(0, i + 1));
                assert forall|k: int| 0 <= k < 3 implies #[trigger] st2.values[k] == vals@[k] as int by {}
            }
        } else if b == 46 && has_digit && field < 2 {
            field = field + 1;
            has_digit = false;
        } else {
            proof {
                lemma_failed_stays(s@, i as int + 1);
            }
            return None;
        }
        i = i + 1;
    }
    assert(s@.subrange(0, s@.len() as int) =~= s@);
    if field == 2 && has_digit {
        Some(FrameworkVersion { major: vals[0], minor: vals[1], patch: vals[2] })
    } else {
        None
    }
}

proof fn lemma_failed_stays(s: Seq<u8>, k: int)
    requires
        0 <= k <= s.len(),
        tag_state(s.subrange(0, k)).failed,
    ensures
        tag_state(s).failed,
    decreases s.len() - k,
{
    if k < s.len() {
        assert(s.subrange(0, k + 1).drop_last() =~= s.subrange(0, k));
        lemma_failed_stays(s, k + 1);
    } else {
        assert(s.subrange(0, k) =~= s);
    }
}

} // verus!

verus! {

/// The known framework releases, oldest first.
pub fn versions() -> (r: Vec<FrameworkVersion>)
    ensures
        r@ == known_versions(),
{
    let mut v: Vec<FrameworkVersion> = Vec::new();
    v.push(FrameworkVersion::new(0, 28, 0));
    v.push(FrameworkVersion::new(0, 29, 0));
    v.push(FrameworkVersion::new(0, 29, 2));
    v.push(FrameworkVersion::new(0, 29, 3));
    v.push(FrameworkVersion::new(0, 30, 0));
    v.push(FrameworkVersion::new(0, 31, 0));
    v.push(FrameworkVersion::new(0, 31, 1));
    v.push(FrameworkVersion::new(0, 32, 0));
    v.push(FrameworkVersion::new(0, 33, 0));
    v.push(FrameworkVersion::new(0, 33, 1));
    v.push(FrameworkVersion::new(0, 34, 0));
    v.push(FrameworkVersion::new(0, 34, 1));
    v.push(FrameworkVersion::new(0, 35, 0));
    v.push(FrameworkVersion::new(0, 36, 0));
    v.push(FrameworkVersion::new(0, 36, 1));
    v.push(FrameworkVersion::new(0, 37, 0));
    v.push(FrameworkVersion::new(0, 38, 0));
    v.push(FrameworkVersion::new(0, 39, 0));
    v.push(FrameworkVersion::new(0, 39, 1));
    v.push(FrameworkVersion::new(0, 39, 2));
    v.push(FrameworkVersion::new(0, 39, 3));
    v.push(FrameworkVersion::new(0, 39, 4));
    v.push(FrameworkVersion::new(0, 39, 5));
    v.push(FrameworkVersion::new(0, 39, 6));
    v.push(FrameworkVersion::new(0, 39, 7));
    v.push(FrameworkVersion::new(0, 39, 8));
    v.push(FrameworkVersion::new(0, 40, 0));
    v.push(FrameworkVersion::new(0, 40, 1));
    v.push(FrameworkVersion::new(0, 41, 0));
    v.push(FrameworkVersion::new(0, 41, 1));
    v.push(FrameworkVersion::new(0, 41, 2));
    v.push(FrameworkVersion::new(0, 41, 3));
    v.push(FrameworkVersion::new(0, 42, 0));
    v.push(FrameworkVersion::new(0, 43, 0));
    v.push(FrameworkVersion::new(0, 43, 1));
    v.push(FrameworkVersion::new(0, 43, 2));
    v.push(FrameworkVersion::new(0, 43, 3));
    v.push(FrameworkVersion::new(0, 43, 4));
    v.push(FrameworkVersion::new(0, 43, 5));
    v.push(FrameworkVersion::new(0, 44, 0));
    v.push(FrameworkVersion::new(0, 45, 0));
    v.push(FrameworkVersion::new(0, 45, 2));
    assert(v@ =~= known_versions());
    v
}

/// Every known release, oldest first.
pub fn all_versions() -> (r: Vec<FrameworkVersion>)
    ensures
        r@ == known_versions(),
{
    versions()
}

/// Whether each version is strictly older than the next.
pub fn is_sorted(list: &Vec<FrameworkVersion>) -> (r: bool)
    ensures
        r == (forall|i: int| 0 <= i < list@.len() - 1 ==> version_lt(#[trigger] list@[i], list@[i + 1])),
{
    let mut i: usize = 0;
    while i < list.len() && i + 1 < list.len()
        invariant
            i <= list@.len(),
            forall|j: int| 0 <= j < i && j < list@.len() - 1 ==> version_lt(#[trigger] list@[j], list@[j + 1]),
        decreases list@.len() - i,
    {
        if !list[i].less_than(&list[i + 1]) {
            return false;
        }
        i = i + 1;
    }
    true
}

/// Whether a template tag names a version from the first tagged template
/// release up to the last release.
pub fn validate_template_tag(tag_str: &str) -> (r: bool)
    ensures
        r == match parse_version(tag_str.spec_bytes()) {
            Some(v) => version_le(lowest_template_tag_spec(), v) && version_le(v, last_version_spec()),
            None => false,
        },
{
    match FrameworkVersion::from_string_template(tag_str) {
        Some(tag) => {
            let low = FrameworkVersion::new(0, 43, 0);
            let last = FrameworkVersion::new(0, 45, 2);
            !tag.less_than(&low) && !last.less_than(&tag)
        },
        None => false,
    }
}

/// Whether templates of this version ship an autogenerated wasm crate.
pub fn is_template_with_autogenerated_wasm(tag: FrameworkVersion) -> (r: bool)
    ensures
        r == version_le(autogenerated_wasm_spec(), tag),
{
    !tag.less_than(&FrameworkVersion::new(0, 45, 0))
}

/// Whether templates of this version ship autogenerated json files.
pub fn is_template_with_autogenerated_json(tag: FrameworkVersion) -> (r: bool)
    ensures
        r == version_le(autogenerated_json_spec(), tag),
{
    !tag.less_than(&FrameworkVersion::new(0, 44, 0))
}

/// The known versions, oldest first, from index `from` on.
fn versions_from(from: usize) -> (r: Vec<FrameworkVersion>)
    requires
        from <= known_versions().len(),
    ensures
        r@ == known_versions().subrange(from as int, known_versions().len() as int),
{
    let all = versions();
    let mut r: Vec<FrameworkVersion> = Vec::new();
    let mut i: usize = from;
    while i < all.len()
        invariant
            all@ == known_versions(),
            from <= i <= all@.len(),
            r@ == all@.subrange(from as int, i as int),
        decreases all@.len() - i,
    {
        r.push(all[i]);
        i = i + 1;
        assert(r@ =~= all@.subrange(from as int, i as int));
    }
    r
}

/// The known versions whose templates ship an autogenerated wasm crate.
pub fn template_versions_with_autogenerated_wasm() -> (r: Vec<FrameworkVersion>)
    ensures
        r@ == known_versions().filter(|v: FrameworkVersion| version_le(autogenerated_wasm_spec(), v)),
{
    let r = versions_from(40);
    proof {
        lemma_filter_from(autogenerated_wasm_spec(), 40);
    }
    r
}

/// The known versions whose templates ship autogenerated json files.
pub fn template_versions_with_autogenerated_json() -> (r: Vec<FrameworkVersion>)
    ensures
        r@ == known_versions().filter(|v: FrameworkVersion| version_le(autogenerated_json_spec(), v)),
{
    let r = versions_from(39);
    proof {
        lemma_filter_from(autogenerated_json_spec(), 39);
    }
    r
}

proof fn lemma_filter_from(low: FrameworkVersion, k: int)
    requires
        0 <= k < known_versions().len(),
        known_versions()[k] == low,
    ensures
        known_versions().filter(|v: FrameworkVersion| version_le(low, v))
            == known_versions().subrange(k, known_versions().len() as int),
{
    let s = known_versions();
    lemma_known_sorted();
    let p = |v: FrameworkVersion| version_le(low, v);
    assert forall|i: int| 0 <= i < s.len() implies (#[trigger] p(s[i]) <==> i >= k) by {
        if i < k {
            lemma_sorted_lt(s, i, k);
        } else if i > k {
            lemma_sorted_lt(s, k, i);
        }
    }
    lemma_filter_suffix(s, p, k);
}

proof fn lemma_filter_suffix(s: Seq<FrameworkVersion>, p: spec_fn(FrameworkVersion) -> bool, k: int)
    requires
        0 <= k <= s.len(),
        forall|i: int| 0 <= i < s.len() ==> (#[trigger] p(s[i]) <==> i >= k),
    ensures
        s.filter(p) == s.subrange(k, s.len() as int),
    decreases s.len(),
{
    reveal(Seq::filter);
    if s.len() > 0 {
        let t = s.drop_last();
        if k < s.len() {
            assert forall|i: int| 0 <= i < t.len() implies (#[trigger] p(t[i]) <==> i >= k) by {
                assert(t[i] == s[i]);
            }
            lemma_filter_suffix(t, p, k);
            assert(p(s[s.len() - 1]));
            assert(s.subrange(k, s.len() as int) =~= t.subrange(k, t.len() as int).push(s.last()));
        } else {
            assert forall|i: int| 0 <= i < t.len() implies (#[trigger] p(t[i]) <==> i >= t.len()) by {
                assert(t[i] == s[i]);
            }
            lemma_filter_suffix(t, p, t.len() as int);
            assert(!p(s[s.len() - 1]));
            assert(s.subrange(k, s.len() as int) =~= Seq::<FrameworkVersion>::empty());
            assert(t.subrange(t.len() as int, t.len() as int) =~= Seq::<FrameworkVersion>::empty());
        }
    } else {
        assert(s.subrange(k, s.len() as int) =~= s);
    }
}

pub open spec fn strictly_sorted(s: Seq<FrameworkVersion>) -> bool {
    forall|i: int| 0 <= i < s.len() - 1 ==> version_lt(#[trigger] s[i], s[i + 1])
}

proof fn lemma_sorted_lt(s: Seq<FrameworkVersion>, i: int, j: int)
    requires
        strictly_sorted(s),
        0 <= i < j < s.len(),
    ensures
        version_lt(s[i], s[j]),
    decreases j - i,
{
    if j > i + 1 {
        lemma_sorted_lt(s, i, j - 1);
        assert(version_lt(s[j - 1], s[j]));
    }
}

/// The known release list is strictly ascending.
pub proof fn lemma_known_sorted()
    ensures
        strictly_sorted(known_versions()),
{
    let s = known_versions();
    assert forall|i: int| 0 <= i < s.len() - 1 implies version_lt(#[trigger] s[i], s[i + 1]) by {
        assert(version_lt(s[0], s[1]));
        assert(version_lt(s[1], s[2]));
        assert(version_lt(s[2], s[3]));
        assert(version_lt(s[3], s[4]));
        assert(version_lt(s[4], s[5]));
        assert(version_lt(s[5], s[6]));
        assert(version_lt(s[6], s[7]));
        assert(version_lt(s[7], s[8]));
        assert(version_lt(s[8], s[9]));
        assert(version_lt(s[9], s[10]));
        assert(version_lt(s[10], s[11]));
        assert(version_lt(s[11], s[12]));
        assert(version_lt(s[12], s[13]));
        assert(version_lt(s[13], s[14]));
        assert(version_lt(s[14], s[15]));
        assert(version_lt(s[15], s[16]));
        assert(version_lt(s[16], s[17]));
        assert(version_lt(s[17], s[18]));
        assert(version_lt(s[18], s[19]));
        assert(version_lt(s[19], s[20]));
        assert(version_lt(s[20], s[21]));
        assert(version_lt(s[21], s[22]));
        assert(version_lt(s[22], s[23]));
        assert(version_lt(s[23], s[24]));
        assert(version_lt(s[24], s[25]));
        assert(version_lt(s[25], s[26]));
        assert(version_lt(s[26], s[27]));
        assert(version_lt(s[27], s[28]));
        assert(version_lt(s[28], s[29]));
        assert(version_lt(s[29], s[30]));
        assert(version_lt(s[30], s[31]));
        assert(version_lt(s[31], s[32]));
        assert(version_lt(s[32], s[33]));
        assert(version_lt(s[33], s[34]));
        assert(version_lt(s[34], s[35]));
        assert(version_lt(s[35], s[36]));
        assert(version_lt(s[36], s[37]));
        assert(version_lt(s[37], s[38]));
        assert(version_lt(s[38], s[39]));
        assert(version_lt(s[39], s[40]));
        assert(version_lt(s[40], s[41]));
    }
}

/// Index of the first known version whose text is `tag`.
pub open spec fn first_with_text(s: Seq<FrameworkVersion>, tag: Seq<u8>, i: int) -> bool {
    0 <= i < s.len() && version_text(s[i]) == tag
        && forall|j: int| 0 <= j < i ==> version_text(#[trigger] s[j]) != tag
}

/// The first known version whose text `major.minor.patch` equals `tag`.
pub fn find_version_str(tag: &str) -> (r: Option<FrameworkVersion>)
    ensures
        match r {
            Some(v) => exists|i: int| first_with_text(known_versions(), tag.spec_bytes(), i) && known_versions()[i] == v,
            None => forall|j: int| 0 <= j < known_versions().len() ==> version_text(#[trigger] known_versions()[j]) != tag.spec_bytes(),
        },
{
    let all = versions();
    let t = tag.as_bytes();
    let mut i: usize = 0;
    while i < all.len()
        invariant
            all@ == known_versions(),
            t@ == tag.spec_bytes(),
            i <= all@.len(),
            forall|j: int| 0 <= j < i ==> version_text(#[trigger] all@[j]) != t@,
        decreases all@.len() - i,
    {
        let text = all[i].text_bytes();
        if bytes_eq(text.as_slice(), t) {
            assert(first_with_text(known_versions(), tag.spec_bytes(), i as int));
            return Some(all[i]);
        }
        i = i + 1;
    }
    None
}

} // verus!

verus! {

/// Walks adjacent `(from, to)` pairs of a version list, stopping once `from`
/// is the configured last version.
pub struct VersionIterator {
    versions: Vec<FrameworkVersion>,
    next_version: usize,
    last_version: FrameworkVersion,
}

/// The pair produced at position `next`, if any.
pub open spec fn version_step(list: Seq<FrameworkVersion>, next: int, last: FrameworkVersion) -> Option<
    (FrameworkVersion, FrameworkVersion),
> {
    if 0 < next < list.len() && list[next - 1] != last {
        Some((list[next - 1], list[next]))
    } else {
        None
    }
}

pub open spec fn no_duplicates(list: Seq<FrameworkVersion>) -> bool {
    forall|i: int, j: int| 0 <= i < j < list.len() ==> list[i] != list[j]
}

impl VersionIterator {
    pub closed spec fn list(&self) -> Seq<FrameworkVersion> {
        self.versions@
    }

    pub closed spec fn position(&self) -> int {
        self.next_version as int
    }

    pub closed spec fn last(&self) -> FrameworkVersion {
        self.last_version
    }

    /// An iterator over `list` that stops at `last_version`.
    pub fn over(list: Vec<FrameworkVersion>, last_version: FrameworkVersion) -> (r: VersionIterator)
        ensures
            r.list() == list@,
            r.position() == 1,
            r.last() == last_version,
    {
        VersionIterator { versions: list, next_version: 1, last_version }
    }

    fn is_last_version(&self, version: &FrameworkVersion) -> (r: bool)
        ensures
            r == (self.last_version == *version),
    {
        self.last_version == *version
    }

    /// The next adjacent pair, or `None` once the last version was left behind
    /// or the list is exhausted.
    pub fn next(&mut self) -> (r: Option<(FrameworkVersion, FrameworkVersion)>)
        ensures
            r == version_step(old(self).list(), old(self).position(), old(self).last()),
            final(self).list() == old(self).list(),
            final(self).last() == old(self).last(),
            final(self).position() == if r is Some {
                old(self).position() + 1
            } else {
                old(self).position()
            },
    {
        if self.next_version > 0 && self.next_version < self.versions.len() {
            let from_version = self.versions[self.next_version - 1];
            if self.is_last_version(&from_version) {
                None
            } else {
                let to_version = self.versions[self.next_version];
                self.next_version = self.next_version + 1;
                Some((from_version, to_version))
            }
        } else {
            None
        }
    }
}

/// Iterates the known versions up to `last_version`.
pub fn versions_iter(last_version: FrameworkVersion) -> (r: VersionIterator)
    ensures
        r.list() == known_versions(),
        r.position() == 1,
        r.last() == last_version,
{
    VersionIterator::over(versions(), last_version)
}

/// Over a list without duplicates whose entry `k` is the target, iteration
/// yields each adjacent pair up to the target once, in ascending order, and
/// then stops.
pub proof fn lemma_version_iteration(list: Seq<FrameworkVersion>, k: int)
    requires
        no_duplicates(list),
        0 <= k < list.len(),
    ensures
        forall|n: int|
            1 <= n <= k ==> #[trigger] version_step(list, n, list[k]) == Some((list[n - 1], list[n])),
        version_step(list, k + 1, list[k]) is None,
{
    assert forall|n: int| 1 <= n <= k implies #[trigger] version_step(list, n, list[k]) == Some(
        (list[n - 1], list[n]),
    ) by {
        assert(list[n - 1] != list[k]);
    }
}

/// With the third entry as target, iteration gives the first two adjacent
/// pairs and then ends.
pub proof fn lemma_version_iteration_third(list: Seq<FrameworkVersion>)
    requires
        no_duplicates(list),
        list.len() >= 3,
    ensures
        version_step(list, 1, list[2]) == Some((list[0], list[1])),
        version_step(list, 2, list[2]) == Some((list[1], list[2])),
        version_step(list, 3, list[2]) is None,
{
    lemma_version_iteration(list, 2);
    assert(version_step(list, 1, list[2]) == Some((list[0], list[1])));
    assert(version_step(list, 2, list[2]) == Some((list[1], list[2])));
}

} // verus!

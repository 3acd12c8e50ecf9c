//! Semantic versions of orchestrations, read and ordered by the `semver`
//! crate, and the table of handlers an orchestration has, one per version,
//! in ascending version order.
use crate::text::{decimal, str_eq, u64_to_decimal};
use vstd::prelude::*;
use vstd::string::*;

verus! {

/// A version as values: major, minor, patch, pre-release, build metadata.
pub type VersionView = (u64, u64, u64, Seq<char>, Seq<char>);

/// The version value of the `semver` crate; opaque here.
#[verifier::external_type_specification]
#[verifier::external_body]
pub struct ExSemverVersion(semver::Version);

/// A semantic version. It is made only by `SemanticVersion::parse` and
/// `SemanticVersion::new`, which read it with `semver` and keep the `semver` value
/// beside its parts; that value decides the order of versions.
#[derive(Debug)]
pub struct SemanticVersion {
    major: u64,
    minor: u64,
    patch: u64,
    pre: String,
    build: String,
    raw: semver::Version,
}

impl View for SemanticVersion {
    type V = VersionView;

    closed spec fn view(&self) -> VersionView {
        (self.major, self.minor, self.patch, self.pre@, self.build@)
    }
}

/// How one version stands to another.
#[derive(Debug, Clone, Copy, PartialEq, Eq, Structural)]
pub enum VersionOrder {
    Less,
    Equal,
    Greater,
}

pub open spec fn reversed(o: VersionOrder) -> VersionOrder {
    match o {
        VersionOrder::Less => VersionOrder::Greater,
        VersionOrder::Equal => VersionOrder::Equal,
        VersionOrder::Greater => VersionOrder::Less,
    }
}

/// What `semver::Version::parse` reads from a text: the parts of the
/// version, or `None` where it refuses the text.
pub uninterp spec fn semver_parse(text: Seq<char>) -> Option<VersionView>;

/// How `semver` orders two versions (`Ord::cmp` of `semver::Version`).
pub uninterp spec fn semver_order(a: VersionView, b: VersionView) -> VersionOrder;

pub open spec fn opt_view(r: Option<SemanticVersion>) -> Option<VersionView> {
    match r {
        Some(v) => Some(v@),
        None => None,
    }
}

/// `semver::Version::parse`: the version a text holds, with its parts as
/// `semver` reads them, or `None` where `semver` refuses the text. Which
/// texts it accepts and what it reads from them are `semver`'s own; the
/// contract names them and says no more.
#[verifier::external_body]
fn semver_read(text: &str) -> (r: Option<SemanticVersion>)
    ensures
        opt_view(r) == semver_parse(text@),
{
    match semver::Version::parse(text) {
        Ok(raw) => Some(
            SemanticVersion {
                major: raw.major,
                minor: raw.minor,
                patch: raw.patch,
                pre: raw.pre.as_str().to_string(),
                build: raw.build.as_str().to_string(),
                raw,
            },
        ),
        Err(_) => None,
    }
}

/// `semver::Version::new`: the version `major.minor.patch`, whose
/// pre-release and build metadata are empty (`Prerelease::EMPTY`,
/// `BuildMetadata::EMPTY`).
#[verifier::external_body]
fn semver_make(major: u64, minor: u64, patch: u64) -> (r: SemanticVersion)
    ensures
        r@ == (major, minor, patch, Seq::<char>::empty(), Seq::<char>::empty()),
{
    let raw = semver::Version::new(major, minor, patch);
    SemanticVersion {
        major: raw.major,
        minor: raw.minor,
        patch: raw.patch,
        pre: raw.pre.as_str().to_string(),
        build: raw.build.as_str().to_string(),
        raw,
    }
}

/// `Ord::cmp` of `semver::Version`. Beside its result the contract states
/// what `Ord` promises and `semver`'s source shows: comparing the other way
/// round gives the reverse, and two versions are equal exactly when all
/// their parts are (the pre-release and build orders find two texts equal
/// only where they are the same text).
#[verifier::external_body]
fn semver_compare(a: &SemanticVersion, b: &SemanticVersion) -> (r: VersionOrder)
    ensures
        r == semver_order(a@, b@),
        semver_order(b@, a@) == reversed(r),
        (r == VersionOrder::Equal) == (a@ == b@),
{
    match a.raw.cmp(&b.raw) {
        std::cmp::Ordering::Less => VersionOrder::Less,
        std::cmp::Ordering::Equal => VersionOrder::Equal,
        std::cmp::Ordering::Greater => VersionOrder::Greater,
    }
}

/// `Clone` of `semver::Version`: a copy with the same parts.
#[verifier::external_body]
fn semver_copy(v: &SemanticVersion) -> (r: SemanticVersion)
    ensures
        r@ == v@,
{
    SemanticVersion {
        major: v.major,
        minor: v.minor,
        patch: v.patch,
        pre: v.pre.clone(),
        build: v.build.clone(),
        raw: v.raw.clone(),
    }
}

/// A version as `semver` displays it: `major.minor.patch`, then `-pre`
/// where there is a pre-release and `+build` where there is build metadata.
pub open spec fn version_text(v: VersionView) -> Seq<char> {
    let core = decimal(v.0 as nat) + seq!['.'] + decimal(v.1 as nat) + seq!['.'] + decimal(v.2 as nat);
    let with_pre = if v.3.len() > 0 { core + seq!['-'] + v.3 } else { core };
    if v.4.len() > 0 { with_pre + seq!['+'] + v.4 } else { with_pre }
}

impl SemanticVersion {
    /// Reads a version text; `None` where it is no semantic version.
    pub fn parse(text: &str) -> (r: Option<SemanticVersion>)
        ensures
            opt_view(r) == semver_parse(text@),
    {
        semver_read(text)
    }

    /// The version `major.minor.patch`.
    pub fn new(major: u64, minor: u64, patch: u64) -> (r: SemanticVersion)
        ensures
            r@ == (major, minor, patch, Seq::<char>::empty(), Seq::<char>::empty()),
    {
        semver_make(major, minor, patch)
    }

    /// How this version stands to `other`.
    pub fn compare(&self, other: &SemanticVersion) -> (r: VersionOrder)
        ensures
            r == semver_order(self@, other@),
            semver_order(other@, self@) == reversed(r),
            (r == VersionOrder::Equal) == (self@ == other@),
    {
        semver_compare(self, other)
    }

    /// Whether the two versions have the same parts.
    pub fn same(&self, other: &SemanticVersion) -> (r: bool)
        ensures
            r == (self@ == other@),
    {
        self.major == other.major && self.minor == other.minor && self.patch == other.patch && str_eq(
            self.pre.as_str(),
            other.pre.as_str(),
        ) && str_eq(self.build.as_str(), other.build.as_str())
    }

    /// The version as text.
    pub fn to_text(&self) -> (r: String)
        ensures
            r@ == version_text(self@),
    {
        proof {
            reveal_strlit(".");
            reveal_strlit("-");
            reveal_strlit("+");
        }
        let mut s = u64_to_decimal(self.major);
        s.append(".");
        let m = u64_to_decimal(self.minor);
        s.append(m.as_str());
        s.append(".");
        let p = u64_to_decimal(self.patch);
        s.append(p.as_str());
        let ghost core = s@;
        assert(core =~= decimal(self.major as nat) + seq!['.'] + decimal(self.minor as nat) + seq!['.'] + decimal(
            self.patch as nat,
        ));
        if !self.pre.as_str().is_empty() {
            s.append("-");
            s.append(self.pre.as_str());
            assert(s@ =~= core + seq!['-'] + self.pre@);
        }
        let ghost with_pre = s@;
        if !self.build.as_str().is_empty() {
            s.append("+");
            s.append(self.build.as_str());
            assert(s@ =~= with_pre + seq!['+'] + self.build@);
        }
        s
    }
}

impl Clone for SemanticVersion {
    fn clone(&self) -> (r: Self)
        ensures
            r@ == self@,
    {
        semver_copy(self)
    }
}

/// The version at `i + 1` is higher than the one at `i`.
pub open spec fn rises_at<H>(s: Seq<(VersionView, H)>, i: int) -> bool {
    semver_order(s[i].0, s[i + 1].0) == VersionOrder::Less
}

/// The versions of a table rise from each one to the next, and none
/// appears twice.
pub open spec fn ascending<H>(s: Seq<(VersionView, H)>) -> bool {
    &&& forall|i: int| 0 <= i && i + 1 < s.len() ==> #[trigger] rises_at(s, i)
    &&& forall|i: int, j: int| 0 <= i < s.len() && 0 <= j < s.len() && i != j ==> s[i].0 != s[j].0
}

pub open spec fn has_version<H>(s: Seq<(VersionView, H)>, v: VersionView) -> bool {
    exists|i: int| 0 <= i < s.len() && #[trigger] s[i].0 == v
}

/// A new version put where the one before it is lower and the one after it
/// higher keeps a table ascending.
proof fn lemma_insert_keeps_ascending<H>(s: Seq<(VersionView, H)>, p: int, vv: VersionView, h: H)
    requires
        ascending(s),
        0 <= p <= s.len(),
        !has_version(s, vv),
        p < s.len() ==> semver_order(vv, s[p].0) == VersionOrder::Less,
        p > 0 ==> semver_order(s[p - 1].0, vv) == VersionOrder::Less,
    ensures
        ascending(s.insert(p, (vv, h))),
{
    let n = s.insert(p, (vv, h));
    assert forall|i: int| 0 <= i && i + 1 < n.len() implies #[trigger] rises_at(n, i) by {
        if i + 1 < p {
            assert(rises_at(s, i));
            assert(n[i] == s[i] && n[i + 1] == s[i + 1]);
        } else if i + 1 == p {
            assert(n[i] == s[i]);
        } else if i == p {
            assert(n[i + 1] == s[i]);
        } else {
            assert(rises_at(s, i - 1));
            assert(n[i] == s[i - 1] && n[i + 1] == s[i]);
        }
    }
    assert forall|a: int, b: int| 0 <= a < n.len() && 0 <= b < n.len() && a != b implies n[a].0 != n[b].0 by {
        if a == p {
            let b2 = if b < p { b } else { b - 1 };
            assert(n[b] == s[b2]);
        } else if b == p {
            let a2 = if a < p { a } else { a - 1 };
            assert(n[a] == s[a2]);
        } else {
            let a2 = if a < p { a } else { a - 1 };
            let b2 = if b < p { b } else { b - 1 };
            assert(n[a] == s[a2]);
            assert(n[b] == s[b2]);
        }
    }
}

/// The handlers of one orchestration, one per version, in ascending order.
pub struct VersionTable<H> {
    entries: Vec<(SemanticVersion, H)>,
}

impl<H> View for VersionTable<H> {
    type V = Seq<(VersionView, H)>;

    closed spec fn view(&self) -> Seq<(VersionView, H)> {
        self.entries@.map_values(|e: (SemanticVersion, H)| (e.0@, e.1))
    }
}

impl<H> VersionTable<H> {
    /// A table without versions.
    pub fn new() -> (r: Self)
        ensures
            r@ == Seq::<(VersionView, H)>::empty(),
    {
        let r = VersionTable { entries: Vec::new() };
        assert(r@ =~= Seq::<(VersionView, H)>::empty());
        r
    }

    /// The number of versions.
    pub fn len(&self) -> (r: usize)
        ensures
            r == self@.len(),
    {
        self.entries.len()
    }

    fn position(&self, v: &SemanticVersion) -> (r: Option<usize>)
        ensures
            match r {
                Some(i) => i < self@.len() && self@[i as int].0 == v@,
                None => !has_version(self@, v@),
            },
    {
        let mut i: usize = 0;
        while i < self.entries.len()
            invariant
                i <= self.entries.len(),
                forall|j: int| 0 <= j < i ==> self@[j].0 != v@,
            decreases self.entries.len() - i,
        {
            if self.entries[i].0.same(v) {
                assert(self@[i as int].0 == v@);
                return Some(i);
            }
            i = i + 1;
        }
        None
    }

    /// Whether the table has version `v`.
    pub fn contains(&self, v: &SemanticVersion) -> (r: bool)
        ensures
            r == has_version(self@, v@),
    {
        self.position(v).is_some()
    }

    /// The handler of version `v`.
    pub fn get(&self, v: &SemanticVersion) -> (r: Option<&H>)
        ensures
            match r {
                Some(h) => exists|i: int| 0 <= i < self@.len() && #[trigger] self@[i].0 == v@ && self@[i].1 == *h,
                None => !has_version(self@, v@),
            },
    {
        match self.position(v) {
            Some(i) => {
                assert(self@[i as int].1 == self.entries@[i as int].1);
                Some(&self.entries[i].1)
            },
            None => None,
        }
    }

    /// The last, highest version and its handler.
    pub fn latest(&self) -> (r: Option<(SemanticVersion, &H)>)
        ensures
            match r {
                Some(e) => self@.len() > 0 && e.0@ == self@.last().0 && *e.1 == self@.last().1,
                None => self@.len() == 0,
            },
    {
        let n = self.entries.len();
        if n == 0 {
            None
        } else {
            let e = &self.entries[n - 1];
            Some((e.0.clone(), &e.1))
        }
    }

    /// The versions, ascending.
    pub fn versions(&self) -> (r: Vec<SemanticVersion>)
        ensures
            r@.len() == self@.len(),
            forall|i: int| 0 <= i < r@.len() ==> (#[trigger] r@[i])@ == self@[i].0,
    {
        let mut out: Vec<SemanticVersion> = Vec::new();
        let mut i: usize = 0;
        while i < self.entries.len()
            invariant
                i <= self.entries.len(),
                out@.len() == i,
                forall|j: int| 0 <= j < i ==> (#[trigger] out@[j])@ == self@[j].0,
            decreases self.entries.len() - i,
        {
            out.push(self.entries[i].0.clone());
            i = i + 1;
        }
        out
    }

    /// Puts a new version in its place in ascending order.
    pub fn insert(&mut self, v: SemanticVersion, h: H)
        requires
            ascending(old(self)@),
            !has_version(old(self)@, v@),
        ensures
            ascending(final(self)@),
            exists|p: int| 0 <= p <= old(self)@.len() && final(self)@ == old(self)@.insert(p, (v@, h)),
    {
        let ghost s = self@;
        let ghost vv = v@;
        let mut p: usize = 0;
        while p < self.entries.len() && v.compare(&self.entries[p].0) != VersionOrder::Less
            invariant
                self@ == s,
                v@ == vv,
                p <= self.entries.len(),
                !has_version(s, vv),
                forall|j: int|
                    0 <= j < p ==> semver_order(s[j].0, vv) == reversed(#[trigger] semver_order(vv, s[j].0))
                        && semver_order(vv, s[j].0) != VersionOrder::Less && (semver_order(vv, s[j].0)
                        == VersionOrder::Equal) == (vv == s[j].0),
            decreases self.entries.len() - p,
        {
            assert(self@[p as int].0 == self.entries@[p as int].0@);
            p = p + 1;
        }
        proof {
            if p < s.len() {
                assert(self@[p as int].0 == self.entries@[p as int].0@);
            }
            if p > 0 {
                assert(s[p - 1].0 != vv);
                let o = semver_order(vv, s[p - 1].0);
                assert(o != VersionOrder::Less && o != VersionOrder::Equal);
                assert(semver_order(s[p - 1].0, vv) == reversed(o));
            }
        }
        self.entries.insert(p, (v, h));
        proof {
            assert(self@ =~= s.insert(p as int, (vv, h)));
            lemma_insert_keeps_ascending(s, p as int, vv, h);
        }
    }

    /// Gives version `v`, which the table has, the handler `h`.
    pub fn set_handler(&mut self, v: &SemanticVersion, h: H)
        requires
            ascending(old(self)@),
            has_version(old(self)@, v@),
        ensures
            ascending(final(self)@),
            exists|i: int| 0 <= i < old(self)@.len() && old(self)@[i].0 == v@ && final(self)@ == old(self)@.update(i, (v@, h)),
    {
        let i = self.position(v).unwrap();
        let ghost s = self@;
        let ghost vv = v@;
        let e = (v.clone(), h);
        self.entries.set(i, e);
        proof {
            let n = self@;
            assert(n =~= s.update(i as int, (vv, h)));
            assert forall|j: int| 0 <= j && j + 1 < n.len() implies #[trigger] rises_at(n, j) by {
                assert(rises_at(s, j));
            }
        }
    }

    /// The versions and handlers, ascending, taken out of the table.
    pub fn into_entries(self) -> (r: Vec<(SemanticVersion, H)>)
        ensures
            r@.map_values(|e: (SemanticVersion, H)| (e.0@, e.1)) == self@,
    {
        self.entries
    }
}

impl<H: Clone> Clone for VersionTable<H> {
    /// The same versions, each with a clone of its handler.
    fn clone(&self) -> (r: Self)
        ensures
            r@.len() == self@.len(),
            forall|i: int| 0 <= i < r@.len() ==> (#[trigger] r@[i]).0 == self@[i].0 && vstd::pervasive::cloned(self@[i].1, r@[i].1),
    {
        let mut out: Vec<(SemanticVersion, H)> = Vec::new();
        let mut i: usize = 0;
        while i < self.entries.len()
            invariant
                i <= self.entries.len(),
                out@.len() == i,
                forall|j: int| 0 <= j < i ==> (#[trigger] out@[j]).0@ == self@[j].0 && vstd::pervasive::cloned(self@[j].1, out@[j].1),
            decreases self.entries.len() - i,
        {
            let v = self.entries[i].0.clone();
            let h = self.entries[i].1.clone();
            out.push((v, h));
            i = i + 1;
        }
        VersionTable { entries: out }
    }
}

} // verus!

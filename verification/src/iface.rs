//! Interface schemas as ordered compositions of capability fragments, and
//! their content-derived identifiers.
//!
//! An interface starts from a mandatory base fragment and is extended by
//! optional capability fragments in a fixed canonical order.  Each extension
//! fails fast when the interface it extends does not already satisfy the
//! fragment's structural preconditions, so an interface whose capabilities
//! contradict one another is never built.  The identifier of a composed
//! interface is a digest of its canonical structure: independently composed
//! interfaces with the same fragments in the same order agree on it.

use vstd::prelude::*;

use sha2::Digest;

verus! {

/// One reusable piece of an interface schema: the mandatory base of each
/// asset family, or one optional capability layered on top of it.
///
/// A reserved capability for attested reserves exists in the wider fragment
/// library but its structural contract is not complete, so it is
/// intentionally absent here and cannot be composed.
#[derive(Clone, Copy, Debug, PartialEq, Eq, Structural)]
pub enum Fragment {
    /// Base of the fungible-token family: a named asset.
    NamedAsset,
    /// Base of the named-collectible family: a named contract.
    NamedContract,
    /// Fungible ownership and transfer of asset units.
    Fungible,
    /// The issuer may rename the asset.
    Renameable,
    /// The supply is fixed at genesis.
    Fixed,
    /// The issuer may inflate the supply with further issues.
    Inflatable,
    /// Asset units may be burned.
    Burnable,
    /// Burned units may be replaced by newly issued ones.
    Replaceable,
}

/// Failure to construct an interface schema: a requested extension cannot be
/// layered onto the current composed base.
#[derive(Clone, Copy, Debug, PartialEq, Eq, Structural)]
pub enum SchemaError {
    /// The starting fragment of a composition must be a family base.
    NotABase,
    /// A base fragment cannot be used as an extension.
    BaseNotExtension,
    /// The fragment is already part of the interface.
    AlreadyExtended,
    /// A fragment that the extension builds upon is missing.
    UnmetPrecondition,
    /// The extension contradicts a capability already present.
    ConflictingCapability,
}

/// Whether a fragment is the mandatory base of one of the asset families.
pub open spec fn is_base(f: Fragment) -> bool {
    f is NamedAsset || f is NamedContract
}

/// The state-transition operation that a fragment requires a conforming
/// contract to declare, if any.
pub open spec fn spec_transition(f: Fragment) -> Option<Seq<char>> {
    match f {
        Fragment::Fungible => Some("transfer"@),
        Fragment::Renameable => Some("rename"@),
        Fragment::Inflatable => Some("issue"@),
        Fragment::Burnable => Some("burn"@),
        Fragment::Replaceable => Some("replace"@),
        _ => None,
    }
}

/// The structural preconditions of an extension: the fragments that must
/// already be present in the interface it extends.
pub open spec fn preconditions_met(s: Seq<Fragment>, f: Fragment) -> bool {
    match f {
        Fragment::Fungible => s.contains(Fragment::NamedAsset) || s.contains(
            Fragment::NamedContract,
        ),
        Fragment::Renameable => s.contains(Fragment::NamedAsset) || s.contains(
            Fragment::NamedContract,
        ),
        Fragment::Fixed => s.contains(Fragment::Fungible),
        Fragment::Inflatable => s.contains(Fragment::Fungible),
        Fragment::Burnable => s.contains(Fragment::Fungible),
        Fragment::Replaceable => s.contains(Fragment::Inflatable) && s.contains(
            Fragment::Burnable,
        ),
        _ => true,
    }
}

/// Whether an extension contradicts a capability already present: a fixed
/// supply excludes every form of inflation, and conversely.
pub open spec fn conflicts(s: Seq<Fragment>, f: Fragment) -> bool {
    match f {
        Fragment::Fixed => s.contains(Fragment::Inflatable) || s.contains(Fragment::Burnable)
            || s.contains(Fragment::Replaceable),
        Fragment::Inflatable => s.contains(Fragment::Fixed),
        Fragment::Burnable => s.contains(Fragment::Fixed),
        Fragment::Replaceable => s.contains(Fragment::Fixed),
        _ => false,
    }
}

/// The exact outcome of extending the fragment sequence `s` with `f`.
pub open spec fn extend_check(s: Seq<Fragment>, f: Fragment) -> Result<(), SchemaError> {
    if is_base(f) {
        Err(SchemaError::BaseNotExtension)
    } else if s.contains(f) {
        Err(SchemaError::AlreadyExtended)
    } else if !preconditions_met(s, f) {
        Err(SchemaError::UnmetPrecondition)
    } else if conflicts(s, f) {
        Err(SchemaError::ConflictingCapability)
    } else {
        Ok(())
    }
}

/// Well-formedness of a composed interface: it starts from a family base and
/// every later fragment was a legal extension of the prefix before it.
pub open spec fn wf_fragments(s: Seq<Fragment>) -> bool {
    &&& s.len() >= 1
    &&& is_base(s[0])
    &&& forall|i: int| 1 <= i < s.len() ==> extend_check(#[trigger] s.take(i), s[i]) is Ok
}

/// The declared transition names of a fragment sequence, in composition
/// order.
pub open spec fn spec_transitions(s: Seq<Fragment>) -> Seq<Seq<char>>
    decreases s.len(),
{
    if s.len() == 0 {
        Seq::empty()
    } else {
        spec_transitions(s.drop_last()) + match spec_transition(s.last()) {
            Some(t) => seq![t],
            None => Seq::empty(),
        }
    }
}

/// The canonical byte of each fragment in an identifier's preimage.
pub open spec fn fragment_code(f: Fragment) -> u8 {
    match f {
        Fragment::NamedAsset => 1,
        Fragment::NamedContract => 2,
        Fragment::Fungible => 3,
        Fragment::Renameable => 4,
        Fragment::Fixed => 5,
        Fragment::Inflatable => 6,
        Fragment::Burnable => 7,
        Fragment::Replaceable => 8,
    }
}

/// The canonical structure of a composition: its fragment codes in order.
/// The interface identifier is the digest of exactly these bytes.
pub open spec fn spec_canonical_bytes(s: Seq<Fragment>) -> Seq<u8> {
    s.map_values(|f: Fragment| fragment_code(f))
}

/// The SHA-256 digest of a byte sequence, named but not restated here: the
/// digest is a function of the input bytes alone.
pub uninterp spec fn digest_of(data: Seq<u8>) -> Seq<u8>;

/// Relies on sha2::Sha256: `Digest::digest` returns the 32-byte SHA-256 hash
/// of the input bytes, a pure function of that input alone.
#[verifier::external_body]
fn sha256_digest(data: &Vec<u8>) -> (r: [u8; 32])
    ensures
        r@ == digest_of(data@),
{
    sha2::Sha256::digest(data.as_slice()).into()
}

/// A fixed-size, content-derived interface identifier: the digest of the
/// interface's canonical structure.  Two independently composed interfaces
/// with identical fragment sets and order carry identical identifiers.
#[derive(Clone, Copy, Debug)]
pub struct IfaceId(pub [u8; 32]);

impl IfaceId {
    /// Byte-for-byte comparison of two identifiers.
    pub fn equals(&self, other: &IfaceId) -> (r: bool)
        ensures
            r == (self.0@ == other.0@),
    {
        let mut i: usize = 0;
        while i < 32
            invariant
                0 <= i <= 32,
                forall|j: int| 0 <= j < i ==> self.0@[j] == other.0@[j],
        decreases 32 - i,
        {
            if self.0[i] != other.0[i] {
                return false;
            }
            i = i + 1;
        }
        proof {
            assert(self.0@ =~= other.0@);
        }
        true
    }
}

/// A declarative interface schema: an ordered composition of a mandatory
/// base fragment and zero or more capability fragments.  Values are built
/// once per feature combination and never mutated afterwards.
#[derive(Clone, Debug)]
pub struct Iface {
    fragments: Vec<Fragment>,
}

impl View for Iface {
    type V = Seq<Fragment>;

    closed spec fn view(&self) -> Seq<Fragment> {
        self.fragments@
    }
}

/// Extending a well-formed composition with a legal fragment keeps it
/// well formed.
pub proof fn lemma_wf_push(s: Seq<Fragment>, f: Fragment)
    requires
        wf_fragments(s),
        extend_check(s, f) is Ok,
    ensures
        wf_fragments(s.push(f)),
{
    let t = s.push(f);
    assert forall|i: int| 1 <= i < t.len() implies extend_check(#[trigger] t.take(i), t[i]) is Ok by {
        if i < s.len() {
            assert(t.take(i) =~= s.take(i));
            assert(t[i] == s[i]);
        } else {
            assert(t.take(i) =~= s);
        }
    }
}

/// The composer cannot build an interface that replaces burned units without
/// both issuing and burning being present: in every well-formed composition,
/// the replacement capability implies the inflation and burn capabilities.
pub proof fn lemma_wf_replaceable_implies_inflatable_burnable(s: Seq<Fragment>)
    requires
        wf_fragments(s),
        s.contains(Fragment::Replaceable),
    ensures
        s.contains(Fragment::Inflatable),
        s.contains(Fragment::Burnable),
{
    let i = choose|i: int| 0 <= i < s.len() && s[i] == Fragment::Replaceable;
    assert(i >= 1);
    assert(extend_check(s.take(i), s[i]) is Ok);
    let p = s.take(i);
    assert(p.contains(Fragment::Inflatable) && p.contains(Fragment::Burnable));
    let j = choose|j: int| 0 <= j < p.len() && p[j] == Fragment::Inflatable;
    assert(s[j] == Fragment::Inflatable);
    let k = choose|k: int| 0 <= k < p.len() && p[k] == Fragment::Burnable;
    assert(s[k] == Fragment::Burnable);
}

/// Whether two string slices hold the same characters.
pub fn str_eq(a: &str, b: &str) -> (r: bool)
    ensures
        r == (a@ == b@),
{
    let sa = a.to_owned();
    let sb = b.to_owned();
    sa == sb
}

/// Whether a fragment vector contains a given fragment.
fn fragments_contain(v: &Vec<Fragment>, f: Fragment) -> (r: bool)
    ensures
        r == v@.contains(f),
{
    let mut i: usize = 0;
    while i < v.len()
        invariant
            0 <= i <= v.len(),
            forall|j: int| 0 <= j < i ==> v@[j] != f,
        decreases v.len() - i,
    {
        if v[i] == f {
            return true;
        }
        i = i + 1;
    }
    false
}

impl Iface {
    /// The fragments of this interface, in composition order.
    pub fn fragments(&self) -> (r: &Vec<Fragment>)
        ensures
            r@ == self@,
    {
        &self.fragments
    }

    /// Well-formedness: built from a family base by legal extensions only.
    pub open spec fn wf(&self) -> bool {
        wf_fragments(self@)
    }

    /// Starts a composition from a family base fragment.  The caller
    /// guarantees that `base` is a base; `with_base` is the checked form.
    pub fn base(base: Fragment) -> (r: Iface)
        requires
            is_base(base),
        ensures
            r@ =~= seq![base],
            r.wf(),
    {
        let mut fragments: Vec<Fragment> = Vec::new();
        fragments.push(base);
        Iface { fragments }
    }

    /// Starts a composition from a family base fragment, rejecting any
    /// fragment that is not a base.
    pub fn with_base(base: Fragment) -> (r: Result<Iface, SchemaError>)
        ensures
            is_base(base) ==> (r matches Ok(i) && i@ =~= seq![base] && i.wf()),
            !is_base(base) ==> r == Err::<Iface, SchemaError>(SchemaError::NotABase),
    {
        match base {
            Fragment::NamedAsset | Fragment::NamedContract => Ok(Iface::base(base)),
            _ => Err(SchemaError::NotABase),
        }
    }

    /// Extends the interface with one capability fragment, failing fast when
    /// the present composition does not satisfy the fragment's structural
    /// preconditions.  On success the fragment is appended; on failure the
    /// interface is unchanged and the exact cause is returned.
    pub fn extended(self, f: Fragment) -> (r: Result<Iface, SchemaError>)
        ensures
            match r {
                Ok(i) => extend_check(self@, f) is Ok && i@ =~= self@.push(f),
                Err(e) => extend_check(self@, f) == Err::<(), SchemaError>(e),
            },
            match r {
                Ok(i) => self.wf() ==> i.wf(),
                Err(_) => true,
            },
    {
        proof {
            if self.wf() && extend_check(self@, f) is Ok {
                lemma_wf_push(self@, f);
            }
        }
        match f {
            Fragment::NamedAsset | Fragment::NamedContract => {
                return Err(SchemaError::BaseNotExtension);
            },
            _ => {},
        }
        if fragments_contain(&self.fragments, f) {
            return Err(SchemaError::AlreadyExtended);
        }
        let met: bool = match f {
            Fragment::Fungible | Fragment::Renameable => fragments_contain(
                &self.fragments,
                Fragment::NamedAsset,
            ) || fragments_contain(&self.fragments, Fragment::NamedContract),
            Fragment::Fixed | Fragment::Inflatable | Fragment::Burnable => fragments_contain(
                &self.fragments,
                Fragment::Fungible,
            ),
            Fragment::Replaceable => fragments_contain(&self.fragments, Fragment::Inflatable)
                && fragments_contain(&self.fragments, Fragment::Burnable),
            _ => true,
        };
        if !met {
            return Err(SchemaError::UnmetPrecondition);
        }
        let conflict: bool = match f {
            Fragment::Fixed => fragments_contain(&self.fragments, Fragment::Inflatable)
                || fragments_contain(&self.fragments, Fragment::Burnable) || fragments_contain(
                &self.fragments,
                Fragment::Replaceable,
            ),
            Fragment::Inflatable | Fragment::Burnable | Fragment::Replaceable => fragments_contain(
                &self.fragments,
                Fragment::Fixed,
            ),
            _ => false,
        };
        if conflict {
            return Err(SchemaError::ConflictingCapability);
        }
        let mut fragments = self.fragments;
        fragments.push(f);
        Ok(Iface { fragments })
    }

    /// Extends the interface with a fragment whose preconditions the caller
    /// has already established; the composer uses this form, since its
    /// compositions are legal by construction.
    pub fn expect_extended(self, f: Fragment) -> (r: Iface)
        requires
            extend_check(self@, f) is Ok,
        ensures
            r@ =~= self@.push(f),
            self.wf() ==> r.wf(),
    {
        match self.extended(f) {
            Ok(i) => i,
            Err(_) => unreached(),
        }
    }

    /// Whether the interface declares a state transition with this name.
    pub fn has_transition(&self, name: &str) -> (r: bool)
        ensures
            r == spec_transitions(self@).contains(name@),
    {
        let mut i: usize = 0;
        let mut found: bool = false;
        while i < self.fragments.len()
            invariant
                0 <= i <= self.fragments.len(),
                found == spec_transitions(self.fragments@.take(i as int)).contains(name@),
            decreases self.fragments.len() - i,
        {
            proof {
                assert(self.fragments@.take(i + 1).drop_last() =~= self.fragments@.take(i as int));
                assert(self.fragments@.take(i + 1).last() == self.fragments@[i as int]);
                lemma_transitions_push_contains(
                    self.fragments@.take(i as int),
                    self.fragments@.take(i + 1),
                    name@,
                );
            }
            let here: bool = match self.fragments[i] {
                Fragment::Fungible => str_eq(name, "transfer"),
                Fragment::Renameable => str_eq(name, "rename"),
                Fragment::Inflatable => str_eq(name, "issue"),
                Fragment::Burnable => str_eq(name, "burn"),
                Fragment::Replaceable => str_eq(name, "replace"),
                _ => false,
            };
            found = found || here;
            i = i + 1;
        }
        proof {
            assert(self.fragments@.take(self.fragments@.len() as int) =~= self.fragments@);
        }
        found
    }

    /// The transition names the interface declares, in composition order.
    pub fn transitions(&self) -> (r: Vec<String>)
        ensures
            r@.map_values(|s: String| s@) =~= spec_transitions(self@),
    {
        let mut out: Vec<String> = Vec::new();
        let mut i: usize = 0;
        while i < self.fragments.len()
            invariant
                0 <= i <= self.fragments.len(),
                out@.map_values(|s: String| s@) =~= spec_transitions(
                    self.fragments@.take(i as int),
                ),
            decreases self.fragments.len() - i,
        {
            proof {
                assert(self.fragments@.take(i + 1).drop_last() =~= self.fragments@.take(i as int));
                assert(self.fragments@.take(i + 1).last() == self.fragments@[i as int]);
            }
            let ghost before = out@;
            match self.fragments[i] {
                Fragment::Fungible => out.push("transfer".to_owned()),
                Fragment::Renameable => out.push("rename".to_owned()),
                Fragment::Inflatable => out.push("issue".to_owned()),
                Fragment::Burnable => out.push("burn".to_owned()),
                Fragment::Replaceable => out.push("replace".to_owned()),
                _ => {},
            }
            proof {
                if out@ != before {
                    assert(out@.map_values(|s: String| s@) =~= before.map_values(|s: String| s@)
                        + seq![out@.last()@]);
                }
            }
            i = i + 1;
        }
        proof {
            assert(self.fragments@.take(self.fragments@.len() as int) =~= self.fragments@);
        }
        out
    }

    /// The canonical structure of the interface as bytes: the fragment codes
    /// in composition order.
    pub fn canonical_bytes(&self) -> (r: Vec<u8>)
        ensures
            r@ =~= spec_canonical_bytes(self@),
    {
        let mut out: Vec<u8> = Vec::new();
        let mut i: usize = 0;
        while i < self.fragments.len()
            invariant
                0 <= i <= self.fragments.len(),
                out@ =~= self.fragments@.take(i as int).map_values(
                    |f: Fragment| fragment_code(f),
                ),
            decreases self.fragments.len() - i,
        {
            let code: u8 = match self.fragments[i] {
                Fragment::NamedAsset => 1,
                Fragment::NamedContract => 2,
                Fragment::Fungible => 3,
                Fragment::Renameable => 4,
                Fragment::Fixed => 5,
                Fragment::Inflatable => 6,
                Fragment::Burnable => 7,
                Fragment::Replaceable => 8,
            };
            out.push(code);
            proof {
                assert(out@ =~= self.fragments@.take(i + 1).map_values(
                    |f: Fragment| fragment_code(f),
                ));
            }
            i = i + 1;
        }
        proof {
            assert(self.fragments@.take(self.fragments@.len() as int) =~= self.fragments@);
        }
        out
    }

    /// The content-derived identifier of the interface: the digest of its
    /// canonical structure.  Identical fragment sequences always yield
    /// identical identifiers, whoever composed them.
    pub fn iface_id(&self) -> (r: IfaceId)
        ensures
            r.0@ == digest_of(spec_canonical_bytes(self@)),
    {
        let bytes = self.canonical_bytes();
        IfaceId(sha256_digest(&bytes))
    }
}

/// Relates membership in the transition list of a composition and of that
/// composition extended by one fragment.
proof fn lemma_transitions_push_contains(s: Seq<Fragment>, t: Seq<Fragment>, name: Seq<char>)
    requires
        t.len() == s.len() + 1,
        t.drop_last() == s,
    ensures
        spec_transitions(t).contains(name) <==> spec_transitions(s).contains(name) || (
        spec_transition(t.last()) == Some(name)),
{
    let ext = spec_transitions(t);
    let base = spec_transitions(s);
    match spec_transition(t.last()) {
        Some(tr) => {
            assert(ext =~= base + seq![tr]);
            if ext.contains(name) {
                let i = choose|i: int| 0 <= i < ext.len() && ext[i] == name;
                if i < base.len() {
                    assert(base[i] == name);
                } else {
                    assert(tr == name);
                }
            }
            if base.contains(name) {
                let i = choose|i: int| 0 <= i < base.len() && base[i] == name;
                assert(ext[i] == name);
            }
            if tr == name {
                assert(ext[base.len() as int] == name);
            }
        },
        None => {
            assert(ext =~= base);
        },
    }
}


/// Membership in a sequence splits into membership in the prefix and
/// equality with the last element.
pub proof fn lemma_contains_drop_last(s: Seq<Fragment>, x: Fragment)
    requires
        s.len() > 0,
    ensures
        s.contains(x) <==> (s.drop_last().contains(x) || s.last() == x),
{
    if s.contains(x) {
        let i = choose|i: int| 0 <= i < s.len() && s[i] == x;
        if i < s.len() - 1 {
            assert(s.drop_last()[i] == x);
        }
    }
    if s.drop_last().contains(x) {
        let i = choose|i: int| 0 <= i < s.drop_last().len() && s.drop_last()[i] == x;
        assert(s[i] == x);
    }
    if s.last() == x {
        assert(s[s.len() - 1] == x);
    }
}

/// Each capability marker appears among a composition's transition names
/// exactly when the fragment that declares it is part of the composition.
pub proof fn lemma_transitions_markers(s: Seq<Fragment>)
    ensures
        spec_transitions(s).contains("transfer"@) <==> s.contains(Fragment::Fungible),
        spec_transitions(s).contains("rename"@) <==> s.contains(Fragment::Renameable),
        spec_transitions(s).contains("issue"@) <==> s.contains(Fragment::Inflatable),
        spec_transitions(s).contains("burn"@) <==> s.contains(Fragment::Burnable),
        spec_transitions(s).contains("replace"@) <==> s.contains(Fragment::Replaceable),
    decreases s.len(),
{
    reveal_strlit("transfer");
    reveal_strlit("rename");
    reveal_strlit("issue");
    reveal_strlit("burn");
    reveal_strlit("replace");
    if s.len() == 0 {
        assert(spec_transitions(s) =~= Seq::<Seq<char>>::empty());
    } else {
        let prefix = s.drop_last();
        lemma_transitions_markers(prefix);
        lemma_transitions_push_contains(prefix, s, "transfer"@);
        lemma_transitions_push_contains(prefix, s, "rename"@);
        lemma_transitions_push_contains(prefix, s, "issue"@);
        lemma_transitions_push_contains(prefix, s, "burn"@);
        lemma_transitions_push_contains(prefix, s, "replace"@);
        lemma_contains_drop_last(s, Fragment::Fungible);
        lemma_contains_drop_last(s, Fragment::Renameable);
        lemma_contains_drop_last(s, Fragment::Inflatable);
        lemma_contains_drop_last(s, Fragment::Burnable);
        lemma_contains_drop_last(s, Fragment::Replaceable);
        assert("transfer"@.len() == 8 && "rename"@.len() == 6 && "issue"@.len() == 5
            && "burn"@.len() == 4 && "replace"@.len() == 7);
        match s.last() {
            Fragment::NamedAsset => {
                assert(spec_transition(s.last()) is None);
            },
            Fragment::NamedContract => {
                assert(spec_transition(s.last()) is None);
            },
            Fragment::Fungible => {
                assert(spec_transition(s.last()) == Some("transfer"@));
            },
            Fragment::Renameable => {
                assert(spec_transition(s.last()) == Some("rename"@));
            },
            Fragment::Fixed => {
                assert(spec_transition(s.last()) is None);
            },
            Fragment::Inflatable => {
                assert(spec_transition(s.last()) == Some("issue"@));
            },
            Fragment::Burnable => {
                assert(spec_transition(s.last()) == Some("burn"@));
            },
            Fragment::Replaceable => {
                assert(spec_transition(s.last()) == Some("replace"@));
            },
        }
    }
}

} // verus!

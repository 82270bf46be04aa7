//! Name resolution: answers "resolve function by name" queries for an
//! instance, in strict tier order — ungated names first, then instance
//! validation, then instance-scoped overrides, then extension-gated
//! overrides, then the chain fallback. First match wins; name comparison is
//! exact and case-sensitive.

use crate::chain::FnRef;
use crate::codes::LayerError;
use crate::instance::{InstanceRecord, INSTANCE_TYPE_TAG};
use crate::registry::HandleRegistry;
use crate::util::bytes_eq;
use vstd::prelude::*;

verus! {

/// One name-to-callable binding in a resolver tier.
pub struct NameEntry {
    pub name: Vec<u8>,
    pub fn_ref: FnRef,
}

/// The names one extension declares, visible only for instances whose
/// recorded active-extension set contains that extension.
pub struct ExtensionEntry {
    pub extension: Vec<u8>,
    pub entries: Vec<NameEntry>,
}

/// The resolver's static table, built once at startup: the small fixed set
/// of names resolvable without a valid instance, the instance-scoped
/// override names this layer intercepts, and the extension-gated overrides.
pub struct ResolverTable {
    pub ungated: Vec<NameEntry>,
    pub overrides: Vec<NameEntry>,
    pub extension_gated: Vec<ExtensionEntry>,
}

/// A successful resolution: either a callable of this layer, or an order to
/// forward the identical query to the next layer's resolver (the reference
/// captured at instance-creation time).
#[derive(Clone, Copy, Debug, PartialEq, Eq, Structural)]
pub enum Resolution {
    Local(FnRef),
    Forward(FnRef),
}

/// First match for `name` in one tier, scanning in table order.
pub open spec fn lookup_spec(entries: Seq<NameEntry>, name: Seq<u8>) -> Option<FnRef>
    decreases entries.len(),
{
    if entries.len() == 0 {
        None
    } else if entries[0].name@ == name {
        Some(entries[0].fn_ref)
    } else {
        lookup_spec(entries.drop_first(), name)
    }
}

/// Whether the recorded active-extension set contains `ext`.
pub open spec fn has_extension_spec(exts: Seq<Vec<u8>>, ext: Seq<u8>) -> bool {
    exists|i: int| 0 <= i < exts.len() && exts[i]@ == ext
}

/// First match for `name` among extension-gated overrides: a disabled
/// extension makes its names invisible, falling through in table order.
pub open spec fn lookup_gated_spec(
    gated: Seq<ExtensionEntry>,
    exts: Seq<Vec<u8>>,
    name: Seq<u8>,
) -> Option<FnRef>
    decreases gated.len(),
{
    if gated.len() == 0 {
        None
    } else if has_extension_spec(exts, gated[0].extension@) && lookup_spec(
        gated[0].entries@,
        name,
    ) is Some {
        lookup_spec(gated[0].entries@, name)
    } else {
        lookup_gated_spec(gated.drop_first(), exts, name)
    }
}

/// The resolution protocol over registry state `m`, in strict tier order,
/// first match wins: ungated names resolve before instance validation; an
/// invalid instance fails with `HandleInvalid` before any further tier;
/// instance-scoped overrides precede extension-gated ones; and an unmatched
/// name is forwarded along the chain, or concluded `FunctionUnsupported`
/// when no next layer exists.
pub open spec fn resolve_spec<D>(
    table: ResolverTable,
    m: Map<(u64, u64), InstanceRecord<D>>,
    instance: u64,
    name: Seq<u8>,
) -> Result<Resolution, LayerError> {
    if lookup_spec(table.ungated@, name) is Some {
        Ok(Resolution::Local(lookup_spec(table.ungated@, name).unwrap()))
    } else if instance == 0 || !m.contains_key((instance, INSTANCE_TYPE_TAG)) {
        Err(LayerError::HandleInvalid)
    } else if lookup_spec(table.overrides@, name) is Some {
        Ok(Resolution::Local(lookup_spec(table.overrides@, name).unwrap()))
    } else if lookup_gated_spec(
        table.extension_gated@,
        m[(instance, INSTANCE_TYPE_TAG)].extensions@,
        name,
    ) is Some {
        Ok(
            Resolution::Local(
                lookup_gated_spec(
                    table.extension_gated@,
                    m[(instance, INSTANCE_TYPE_TAG)].extensions@,
                    name,
                ).unwrap(),
            ),
        )
    } else {
        match m[(instance, INSTANCE_TYPE_TAG)].chain {
            Some(c) => Ok(Resolution::Forward(c.next_get_instance_proc_addr)),
            None => Err(LayerError::FunctionUnsupported),
        }
    }
}

/// Scans one tier for `name`, first match wins.
pub fn lookup(entries: &Vec<NameEntry>, name: &Vec<u8>) -> (r: Option<FnRef>)
    ensures
        r == lookup_spec(entries@, name@),
{
    let n = entries.len();
    let mut i: usize = 0;
    proof {
        assert(entries@.skip(0) =~= entries@);
    }
    while i < n
        invariant
            n == entries@.len(),
            i <= n,
            lookup_spec(entries@, name@) == lookup_spec(entries@.skip(i as int), name@),
        decreases n - i,
    {
        proof {
            assert(entries@.skip(i as int)[0] == entries@[i as int]);
        }
        if bytes_eq(&entries[i].name, name) {
            return Some(entries[i].fn_ref);
        }
        proof {
            assert(entries@.skip(i as int).drop_first() =~= entries@.skip(i as int + 1));
        }
        i = i + 1;
    }
    None
}

/// Whether the instance's recorded active-extension set contains `ext`.
pub fn has_extension(exts: &Vec<Vec<u8>>, ext: &Vec<u8>) -> (r: bool)
    ensures
        r == has_extension_spec(exts@, ext@),
{
    let n = exts.len();
    let mut i: usize = 0;
    while i < n
        invariant
            n == exts@.len(),
            i <= n,
            forall|j: int| 0 <= j < i ==> exts@[j]@ != ext@,
        decreases n - i,
    {
        if bytes_eq(&exts[i], ext) {
            assert(exts@[i as int]@ == ext@);
            return true;
        }
        i = i + 1;
    }
    false
}

/// Scans the extension-gated overrides for `name`, skipping the names of
/// extensions the instance did not enable.
pub fn lookup_gated(gated: &Vec<ExtensionEntry>, exts: &Vec<Vec<u8>>, name: &Vec<u8>) -> (r: Option<
    FnRef,
>)
    ensures
        r == lookup_gated_spec(gated@, exts@, name@),
{
    let n = gated.len();
    let mut i: usize = 0;
    proof {
        assert(gated@.skip(0) =~= gated@);
    }
    while i < n
        invariant
            n == gated@.len(),
            i <= n,
            lookup_gated_spec(gated@, exts@, name@) == lookup_gated_spec(
                gated@.skip(i as int),
                exts@,
                name@,
            ),
        decreases n - i,
    {
        proof {
            assert(gated@.skip(i as int)[0] == gated@[i as int]);
        }
        if has_extension(exts, &gated[i].extension) {
            if let Some(f) = lookup(&gated[i].entries, name) {
                return Some(f);
            }
        }
        proof {
            assert(gated@.skip(i as int).drop_first() =~= gated@.skip(i as int + 1));
        }
        i = i + 1;
    }
    None
}

/// Resolves `name` for `instance` against the layer's table and the registry
/// state, in strict tier order. The resolved value is an opaque callable
/// reference: the resolver guarantees only that the name was recognized and
/// authorized for this instance, not call-signature compatibility.
pub fn resolve<D>(
    table: &ResolverTable,
    reg: &HandleRegistry<InstanceRecord<D>>,
    instance: u64,
    name: &Vec<u8>,
) -> (r: Result<Resolution, LayerError>)
    requires
        reg.wf(),
    ensures
        r == resolve_spec(*table, reg@, instance, name@),
{
    if let Some(f) = lookup(&table.ungated, name) {
        return Ok(Resolution::Local(f));
    }
    let record = match reg.get(instance, INSTANCE_TYPE_TAG) {
        Ok(rec) => rec,
        Err(e) => {
            return Err(e);
        },
    };
    if let Some(f) = lookup(&table.overrides, name) {
        return Ok(Resolution::Local(f));
    }
    if let Some(f) = lookup_gated(&table.extension_gated, &record.extensions, name) {
        return Ok(Resolution::Local(f));
    }
    match record.chain {
        Some(c) => Ok(Resolution::Forward(c.next_get_instance_proc_addr)),
        None => Err(LayerError::FunctionUnsupported),
    }
}

/// Resolver tie-break: a name registered in the override tier (and not among
/// the ungated names, whose tier precedes it) resolves to the override for
/// every valid instance — never to the chain fallback, whatever the next
/// layer would answer and whatever extensions are enabled.
pub proof fn lemma_override_beats_chain<D>(
    table: ResolverTable,
    m: Map<(u64, u64), InstanceRecord<D>>,
    instance: u64,
    name: Seq<u8>,
    f: FnRef,
)
    requires
        lookup_spec(table.ungated@, name) is None,
        lookup_spec(table.overrides@, name) == Some(f),
        instance != 0,
        m.contains_key((instance, INSTANCE_TYPE_TAG)),
    ensures
        resolve_spec(table, m, instance, name) == Ok::<Resolution, LayerError>(
            Resolution::Local(f),
        ),
{
}

} // verus!

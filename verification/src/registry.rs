use vstd::prelude::*;

use crate::domain::AnyMsg;
use crate::errors::{ProtosError, RegistryError};
use crate::wire::{wire_fields, wire_len_fields};

verus! {

/// How a signer field is read: as a string value, or as a nested message
/// whose own registry entry (always an earlier one) is extracted from each
/// occurrence.
pub enum FieldSpecKind {
    Str,
    Msg(usize),
}

/// One signer field of a message type: its field number and how it is
/// read.
pub struct FieldSpec {
    pub number: u64,
    pub kind: FieldSpecKind,
}

/// View of a registry entry.
#[verifier::ext_equal]
pub ghost struct RegistryEntryV {
    pub type_url: Seq<char>,
    pub fields: Seq<FieldSpec>,
}

/// The signer fields registered for one message type.
pub struct RegistryEntry {
    pub type_url: String,
    pub fields: Vec<FieldSpec>,
}

impl View for RegistryEntry {
    type V = RegistryEntryV;

    open spec fn view(&self) -> RegistryEntryV {
        RegistryEntryV { type_url: self.type_url@, fields: self.fields@ }
    }
}

impl DeepView for RegistryEntry {
    type V = RegistryEntryV;

    open spec fn deep_view(&self) -> RegistryEntryV {
        self.view()
    }
}

/// An entry may refer only to strictly earlier entries, so nested
/// extraction is bounded.
pub open spec fn registry_wf(entries: Seq<RegistryEntryV>) -> bool {
    forall|i: int, j: int|
        0 <= i < entries.len() && 0 <= j < entries[i].fields.len() ==> match (
        #[trigger] entries[i].fields[j]).kind {
            FieldSpecKind::Msg(m) => (m as int) < i,
            FieldSpecKind::Str => true,
        }
}

/// The signer strings of one registry entry extracted from a message
/// payload; nothing when the payload is malformed or the entry refers
/// forward.
pub open spec fn extract_entry(reg: Seq<RegistryEntryV>, ei: int, value: Seq<u8>) -> Option<
    Seq<Seq<u8>>,
>
    recommends
        0 <= ei < reg.len(),
    decreases ei, 3nat, 0nat,
{
    if 0 <= ei < reg.len() {
        extract_fields(reg, ei, reg[ei].fields, value)
    } else {
        None
    }
}

/// The concatenated signer strings of a list of signer fields.
pub open spec fn extract_fields(
    reg: Seq<RegistryEntryV>,
    ei: int,
    fields: Seq<FieldSpec>,
    value: Seq<u8>,
) -> Option<Seq<Seq<u8>>>
    decreases ei, 2nat, fields.len(),
{
    if ei < 0 {
        None
    } else if fields.len() == 0 {
        Some(seq![])
    } else {
        match extract_field(reg, ei, fields[0], value) {
            None => None,
            Some(first) => match extract_fields(reg, ei, fields.drop_first(), value) {
                None => None,
                Some(rest) => Some(first + rest),
            },
        }
    }
}

/// The signer strings of one signer field: the field's occurrences for a
/// string field; the concatenated extraction of the nested entry over each
/// occurrence for a message field.
pub open spec fn extract_field(
    reg: Seq<RegistryEntryV>,
    ei: int,
    f: FieldSpec,
    value: Seq<u8>,
) -> Option<Seq<Seq<u8>>>
    decreases ei, 1nat, 0nat,
{
    if ei < 0 {
        None
    } else {
        match wire_fields(value, f.number as nat) {
            None => None,
            Some(ps) => match f.kind {
                FieldSpecKind::Str => Some(ps),
                FieldSpecKind::Msg(m) => if (m as int) < ei {
                    extract_payloads(reg, m as int, ps)
                } else {
                    None
                },
            },
        }
    }
}

/// The concatenated extraction of one entry over a list of payloads.
pub open spec fn extract_payloads(reg: Seq<RegistryEntryV>, ei: int, ps: Seq<Seq<u8>>) -> Option<
    Seq<Seq<u8>>,
>
    decreases ei, 4nat, ps.len(),
{
    if ei < 0 {
        None
    } else if ps.len() == 0 {
        Some(seq![])
    } else {
        match extract_entry(reg, ei, ps[0]) {
            None => None,
            Some(first) => match extract_payloads(reg, ei, ps.drop_first()) {
                None => None,
                Some(rest) => Some(first + rest),
            },
        }
    }
}

/// The index of the first registry entry for a type URL.
pub open spec fn registry_lookup(reg: Seq<RegistryEntryV>, url: Seq<char>) -> Option<int>
    decreases reg.len(),
{
    if reg.len() == 0 {
        None
    } else if reg[0].type_url == url {
        Some(0int)
    } else {
        match registry_lookup(reg.drop_first(), url) {
            Some(i) => Some(i + 1),
            None => None,
        }
    }
}

/// The static signer registry: for each known message type URL, how to
/// read its signer strings out of an opaque payload.
pub struct SignerRegistry {
    entries: Vec<RegistryEntry>,
}

impl View for SignerRegistry {
    type V = Seq<RegistryEntryV>;

    closed spec fn view(&self) -> Seq<RegistryEntryV> {
        self.entries.deep_view()
    }
}

impl SignerRegistry {
    #[verifier::type_invariant]
    pub closed spec fn wf(self) -> bool {
        registry_wf(self.entries.deep_view())
    }

    /// Accepts exactly the entry lists whose message references point
    /// strictly backwards.
    pub fn new(entries: Vec<RegistryEntry>) -> (r: Option<Self>)
        ensures
            registry_wf(entries.deep_view()) ==> (r matches Some(g) && g@ == entries.deep_view()),
            !registry_wf(entries.deep_view()) ==> r is None,
    {
        let mut i: usize = 0;
        while i < entries.len()
            invariant
                i <= entries@.len(),
                forall|a: int, b: int|
                    0 <= a < i && 0 <= b < entries.deep_view()[a].fields.len() ==> match (
                    #[trigger] entries.deep_view()[a].fields[b]).kind {
                        FieldSpecKind::Msg(m) => (m as int) < a,
                        FieldSpecKind::Str => true,
                    },
            decreases entries@.len() - i,
        {
            let entry = &entries[i];
            let mut j: usize = 0;
            while j < entry.fields.len()
                invariant
                    i < entries@.len(),
                    j <= entry.fields@.len(),
                    entry == entries@[i as int],
                    forall|b: int|
                        0 <= b < j ==> match (#[trigger] entry.fields@[b]).kind {
                            FieldSpecKind::Msg(m) => (m as int) < i as int,
                            FieldSpecKind::Str => true,
                        },
                decreases entry.fields@.len() - j,
            {
                match &entry.fields[j].kind {
                    FieldSpecKind::Msg(m) => {
                        if *m >= i {
                            proof {
                                assert(entries.deep_view()[i as int].fields[j as int]
                                    == entry.fields@[j as int]);
                            }
                            return None;
                        }
                    },
                    FieldSpecKind::Str => {},
                }
                j = j + 1;
            }
            proof {
                assert forall|b: int| 0 <= b < entries.deep_view()[i as int].fields.len() implies
                    match (#[trigger] entries.deep_view()[i as int].fields[b]).kind {
                        FieldSpecKind::Msg(m) => (m as int) < i as int,
                        FieldSpecKind::Str => true,
                    } by {
                    assert(entries.deep_view()[i as int].fields[b] == entry.fields@[b]);
                }
            }
            i = i + 1;
        }
        Some(SignerRegistry { entries })
    }

    pub fn entries(&self) -> (r: &Vec<RegistryEntry>)
        ensures
            r.deep_view() == self@,
    {
        &self.entries
    }
}

fn extract_entry_exec(entries: &Vec<RegistryEntry>, ei: usize, value: &Vec<u8>) -> (r: Option<
    Vec<Vec<u8>>,
>)
    requires
        ei < entries.deep_view().len(),
        registry_wf(entries.deep_view()),
    ensures
        match extract_entry(entries.deep_view(), ei as int, value@) {
            None => r is None,
            Some(ss) => r matches Some(v) && v.deep_view() == ss,
        },
    decreases ei, 3nat, 0nat,
{
    let entry = &entries[ei];
    proof {
        assert(entries.deep_view()[ei as int].fields =~= entry.fields@);
        assert(entry.fields@.skip(0) =~= entry.fields@);
        assert forall|b: int| 0 <= b < entry.fields@.len() implies match (
        #[trigger] entry.fields@[b]).kind {
            FieldSpecKind::Msg(m) => (m as int) < ei as int,
            FieldSpecKind::Str => true,
        } by {
            assert(entries.deep_view()[ei as int].fields[b] == entry.fields@[b]);
        }
    }
    extract_fields_exec(entries, ei, &entry.fields, 0, value)
}

fn extract_fields_exec(
    entries: &Vec<RegistryEntry>,
    ei: usize,
    fields: &Vec<FieldSpec>,
    fi: usize,
    value: &Vec<u8>,
) -> (r: Option<Vec<Vec<u8>>>)
    requires
        ei < entries.deep_view().len(),
        fi <= fields@.len(),
        registry_wf(entries.deep_view()),
        forall|b: int|
            0 <= b < fields@.len() ==> match (#[trigger] fields@[b]).kind {
                FieldSpecKind::Msg(m) => (m as int) < ei as int,
                FieldSpecKind::Str => true,
            },
    ensures
        match extract_fields(entries.deep_view(), ei as int, fields@.skip(fi as int), value@) {
            None => r is None,
            Some(ss) => r matches Some(v) && v.deep_view() == ss,
        },
    decreases ei, 2nat, fields@.len() - fi,
{
    if fi == fields.len() {
        proof {
            assert(fields@.skip(fi as int) =~= Seq::<FieldSpec>::empty());
        }
        let r: Vec<Vec<u8>> = Vec::new();
        proof {
            assert(r.deep_view() =~~= Seq::<Seq<u8>>::empty());
        }
        return Some(r);
    }
    proof {
        assert(fields@.skip(fi as int)[0] == fields@[fi as int]);
        assert(fields@.skip(fi as int).drop_first() =~= fields@.skip(fi as int + 1));
    }
    match extract_field_exec(entries, ei, &fields[fi], value) {
        None => None,
        Some(mut first) => match extract_fields_exec(entries, ei, fields, fi + 1, value) {
            None => None,
            Some(mut rest) => {
                let ghost f0 = first.deep_view();
                let ghost r0 = rest.deep_view();
                first.append(&mut rest);
                proof {
                    assert(first.deep_view() =~~= f0 + r0);
                }
                Some(first)
            },
        },
    }
}

fn extract_field_exec(
    entries: &Vec<RegistryEntry>,
    ei: usize,
    f: &FieldSpec,
    value: &Vec<u8>,
) -> (r: Option<Vec<Vec<u8>>>)
    requires
        ei < entries.deep_view().len(),
        registry_wf(entries.deep_view()),
        match f.kind {
            FieldSpecKind::Msg(m) => (m as int) < ei as int,
            FieldSpecKind::Str => true,
        },
    ensures
        match extract_field(entries.deep_view(), ei as int, *f, value@) {
            None => r is None,
            Some(ss) => r matches Some(v) && v.deep_view() == ss,
        },
    decreases ei, 1nat, 0nat,
{
    match wire_len_fields(value, f.number) {
        None => None,
        Some(ps) => match &f.kind {
            FieldSpecKind::Str => Some(ps),
            FieldSpecKind::Msg(m) => {
                proof {
                    assert(ps.deep_view().skip(0) =~= ps.deep_view());
                }
                extract_payloads_exec(entries, *m, &ps, 0)
            },
        },
    }
}

fn extract_payloads_exec(
    entries: &Vec<RegistryEntry>,
    ei: usize,
    ps: &Vec<Vec<u8>>,
    pi: usize,
) -> (r: Option<Vec<Vec<u8>>>)
    requires
        ei < entries.deep_view().len(),
        pi <= ps@.len(),
        registry_wf(entries.deep_view()),
    ensures
        match extract_payloads(entries.deep_view(), ei as int, ps.deep_view().skip(pi as int)) {
            None => r is None,
            Some(ss) => r matches Some(v) && v.deep_view() == ss,
        },
    decreases ei, 4nat, ps@.len() - pi,
{
    if pi == ps.len() {
        proof {
            assert(ps.deep_view().skip(pi as int) =~= Seq::<Seq<u8>>::empty());
        }
        let r: Vec<Vec<u8>> = Vec::new();
        proof {
            assert(r.deep_view() =~~= Seq::<Seq<u8>>::empty());
        }
        return Some(r);
    }
    proof {
        assert(ps.deep_view().skip(pi as int)[0] =~~= ps@[pi as int]@);
        assert(ps.deep_view().skip(pi as int).drop_first() =~= ps.deep_view().skip(pi as int + 1));
    }
    match extract_entry_exec(entries, ei, &ps[pi]) {
        None => None,
        Some(mut first) => match extract_payloads_exec(entries, ei, ps, pi + 1) {
            None => None,
            Some(mut rest) => {
                let ghost f0 = first.deep_view();
                let ghost r0 = rest.deep_view();
                first.append(&mut rest);
                proof {
                    assert(first.deep_view() =~~= f0 + r0);
                }
                Some(first)
            },
        },
    }
}

proof fn lemma_registry_lookup_at(reg: Seq<RegistryEntryV>, url: Seq<char>, i: int)
    requires
        0 <= i < reg.len(),
        reg[i].type_url == url,
        forall|j: int| 0 <= j < i ==> (#[trigger] reg[j]).type_url != url,
    ensures
        registry_lookup(reg, url) == Some(i),
    decreases reg.len(),
{
    if i > 0 {
        lemma_registry_lookup_at(reg.drop_first(), url, i - 1);
    }
}

proof fn lemma_registry_lookup_none(reg: Seq<RegistryEntryV>, url: Seq<char>)
    requires
        forall|j: int| 0 <= j < reg.len() ==> (#[trigger] reg[j]).type_url != url,
    ensures
        registry_lookup(reg, url) is None,
    decreases reg.len(),
{
    if reg.len() > 0 {
        lemma_registry_lookup_none(reg.drop_first(), url);
    }
}

impl SignerRegistry {
    /// The ordered signer strings that an opaque message yields: unknown
    /// type URLs carry no signer, malformed payloads fail to decode.
    pub fn signers_from_any_msg(&self, msg: &AnyMsg) -> (r: Result<Vec<Vec<u8>>, ProtosError>)
        ensures
            match signers_of_any(self@, msg@) {
                Ok(ss) => r matches Ok(v) && v.deep_view() == ss,
                Err(e) => r matches Err(e2) && e2 == e,
            },
    {
        proof {
            use_type_invariant(self);
        }
        let mut i: usize = 0;
        while i < self.entries.len()
            invariant
                i <= self.entries@.len(),
                registry_wf(self.entries.deep_view()),
                forall|j: int|
                    0 <= j < i ==> (#[trigger] self.entries.deep_view()[j]).type_url != msg@.type_url,
            decreases self.entries@.len() - i,
        {
            if self.entries[i].type_url == msg.type_url {
                proof {
                    lemma_registry_lookup_at(self.entries.deep_view(), msg@.type_url, i as int);
                }
                return match extract_entry_exec(&self.entries, i, &msg.value) {
                    None => Err(ProtosError::Decode),
                    Some(v) => Ok(v),
                };
            }
            i = i + 1;
        }
        proof {
            lemma_registry_lookup_none(self.entries.deep_view(), msg@.type_url);
        }
        Err(ProtosError::NoSignerInMsg)
    }
}

/// The kind a message field's terminal takes in the descriptor pool: a
/// string, a nested message (by pool index), or anything else.
pub enum FieldDescKind {
    Str,
    Message(usize),
    Other,
}

/// One declared field of a message type.
pub struct FieldDesc {
    pub name: String,
    pub number: u64,
    pub kind: FieldDescKind,
}

/// One message type of the descriptor pool: its type URL, the signer
/// option's field-name list when the option is present, and its declared
/// fields.
pub struct MessageDesc {
    pub type_url: String,
    pub signer_fields: Option<Vec<String>>,
    pub fields: Vec<FieldDesc>,
}

/// Every nested-message field points strictly backwards in the pool, so
/// the reference structure is a tree and recursion over it is bounded.
pub open spec fn pool_wf(msgs: Seq<MessageDesc>) -> bool {
    forall|i: int, j: int|
        0 <= i < msgs.len() && 0 <= j < msgs[i].fields@.len() ==> match (
        #[trigger] msgs[i].fields@[j]).kind {
            FieldDescKind::Message(m) => (m as int) < i,
            _ => true,
        }
}

/// A compiled protobuf descriptor pool, reduced to what signer-registry
/// validation reads, with nested messages listed before their users.
pub struct DescriptorPool {
    msgs: Vec<MessageDesc>,
}

impl DescriptorPool {
    #[verifier::type_invariant]
    pub closed spec fn wf(self) -> bool {
        pool_wf(self.msgs@)
    }

    pub closed spec fn spec_msgs(&self) -> Seq<MessageDesc> {
        self.msgs@
    }

    pub fn msgs(&self) -> (r: &Vec<MessageDesc>)
        ensures
            r@ == self.spec_msgs(),
    {
        &self.msgs
    }

    /// Accepts exactly the pools whose nested-message references point
    /// strictly backwards.
    pub fn new(msgs: Vec<MessageDesc>) -> (r: Option<Self>)
        ensures
            pool_wf(msgs@) ==> (r matches Some(p) && p.spec_msgs() == msgs@),
            !pool_wf(msgs@) ==> r is None,
    {
        let mut i: usize = 0;
        while i < msgs.len()
            invariant
                i <= msgs@.len(),
                forall|a: int, b: int|
                    0 <= a < i && 0 <= b < msgs@[a].fields@.len() ==> match (
                    #[trigger] msgs@[a].fields@[b]).kind {
                        FieldDescKind::Message(m) => (m as int) < a,
                        _ => true,
                    },
            decreases msgs@.len() - i,
        {
            let m = &msgs[i];
            let mut j: usize = 0;
            while j < m.fields.len()
                invariant
                    i < msgs@.len(),
                    j <= m.fields@.len(),
                    m == msgs@[i as int],
                    forall|b: int|
                        0 <= b < j ==> match (#[trigger] m.fields@[b]).kind {
                            FieldDescKind::Message(c) => (c as int) < i as int,
                            _ => true,
                        },
                decreases m.fields@.len() - j,
            {
                match &m.fields[j].kind {
                    FieldDescKind::Message(c) => {
                        if *c >= i {
                            return None;
                        }
                    },
                    _ => {},
                }
                j = j + 1;
            }
            i = i + 1;
        }
        Some(DescriptorPool { msgs })
    }
}

/// The index of the first declared field with the given name.
pub open spec fn first_field_with(fields: Seq<FieldDesc>, name: Seq<char>) -> Option<int>
    decreases fields.len(),
{
    if fields.len() == 0 {
        None
    } else if fields[0].name@ == name {
        Some(0int)
    } else {
        match first_field_with(fields.drop_first(), name) {
            Some(k) => Some(k + 1),
            None => None,
        }
    }
}

/// Every field the message's signer option names is declared on the
/// message.
pub open spec fn names_ok(msgs: Seq<MessageDesc>, i: int) -> bool {
    match msgs[i].signer_fields {
        Some(sf) => forall|t: int|
            0 <= t < sf@.len() ==> first_field_with(msgs[i].fields@, (#[trigger] sf@[t])@)
                is Some,
        None => true,
    }
}

/// Every message's signer option names only declared fields.
pub open spec fn pool_fields_ok(msgs: Seq<MessageDesc>) -> bool {
    forall|i: int| 0 <= i < msgs.len() ==> names_ok(msgs, i)
}

/// Whether a message registers: its signer option is present and
/// non-empty and at least one named field is usable — a string, or a
/// nested message that itself registers.
pub open spec fn registers(msgs: Seq<MessageDesc>, i: int) -> bool
    decreases i, 2nat, 0nat,
{
    if !(0 <= i < msgs.len()) {
        false
    } else {
        match msgs[i].signer_fields {
            None => false,
            Some(sf) => sf@.len() > 0 && usable_specs(msgs, i, sf@).len() > 0,
        }
    }
}

/// The signer field specs a message's entry carries: one per named field
/// that is usable, in option order, each with the declared field number;
/// a nested-message field resolves to the nested message's entry index.
pub open spec fn usable_specs(msgs: Seq<MessageDesc>, i: int, names: Seq<String>) -> Seq<
    FieldSpec,
>
    decreases i, 1nat, names.len(),
{
    if i < 0 || names.len() == 0 {
        seq![]
    } else {
        let rest = usable_specs(msgs, i, names.drop_first());
        if !(0 <= i < msgs.len()) {
            rest
        } else {
            match first_field_with(msgs[i].fields@, names[0]@) {
                None => rest,
                Some(k) => {
                    let f = msgs[i].fields@[k];
                    match f.kind {
                        FieldDescKind::Str => seq![
                            FieldSpec { number: f.number, kind: FieldSpecKind::Str },
                        ] + rest,
                        FieldDescKind::Message(m) => if (m as int) < i && registers(
                            msgs,
                            m as int,
                        ) {
                            seq![
                                FieldSpec {
                                    number: f.number,
                                    kind: FieldSpecKind::Msg(
                                        registered_count(msgs, m as int) as usize,
                                    ),
                                },
                            ] + rest
                        } else {
                            rest
                        },
                        FieldDescKind::Other => rest,
                    }
                },
            }
        }
    }
}

/// How many messages below `upto` register; a registering message's
/// entry index is the count below its own position.
pub open spec fn registered_count(msgs: Seq<MessageDesc>, upto: int) -> int
    decreases upto, 3nat, 0nat,
{
    if upto <= 0 {
        0
    } else {
        registered_count(msgs, upto - 1) + (if registers(msgs, upto - 1) {
            1int
        } else {
            0int
        })
    }
}

/// The registry entry of a registering message.
pub open spec fn message_entry(msgs: Seq<MessageDesc>, i: int) -> RegistryEntryV
    decreases i, 4nat, 0nat,
{
    RegistryEntryV {
        type_url: msgs[i].type_url@,
        fields: usable_specs(msgs, i, msgs[i].signer_fields->Some_0@),
    }
}

/// The registry the pool's first `upto` messages build: the entries of
/// the registering messages, in pool order.
pub open spec fn registry_prefix(msgs: Seq<MessageDesc>, upto: int) -> Seq<RegistryEntryV>
    decreases upto, 5nat, 0nat,
{
    if upto <= 0 {
        seq![]
    } else {
        registry_prefix(msgs, upto - 1) + (if registers(msgs, upto - 1) {
            seq![message_entry(msgs, upto - 1)]
        } else {
            seq![]
        })
    }
}

/// The registry a descriptor pool builds.
pub open spec fn registry_spec(msgs: Seq<MessageDesc>) -> Seq<RegistryEntryV> {
    registry_prefix(msgs, msgs.len() as int)
}

pub proof fn lemma_registered_count_le(msgs: Seq<MessageDesc>, a: int, b: int)
    requires
        a <= b,
    ensures
        registered_count(msgs, a) <= registered_count(msgs, b),
        a < b && registers(msgs, a) ==> registered_count(msgs, a) < registered_count(msgs, b),
    decreases b - a,
{
    if a < b {
        lemma_registered_count_le(msgs, a, b - 1);
        if a < b - 1 {
        }
    }
}

pub proof fn lemma_registered_count_bounds(msgs: Seq<MessageDesc>, upto: int)
    ensures
        0 <= registered_count(msgs, upto),
        upto >= 0 ==> registered_count(msgs, upto) <= upto,
    decreases upto,
{
    if upto > 0 {
        lemma_registered_count_bounds(msgs, upto - 1);
    }
}

pub proof fn lemma_registry_prefix_len(msgs: Seq<MessageDesc>, upto: int)
    ensures
        registry_prefix(msgs, upto).len() == if upto <= 0 {
            0int
        } else {
            registered_count(msgs, upto)
        },
    decreases upto,
{
    if upto > 0 {
        lemma_registry_prefix_len(msgs, upto - 1);
    }
}

/// Every nested-message spec an entry carries points at a strictly
/// earlier entry.
pub proof fn lemma_usable_specs_backward(msgs: Seq<MessageDesc>, i: int, names: Seq<String>)
    requires
        0 <= i < msgs.len(),
        msgs.len() <= usize::MAX,
    ensures
        forall|b: int|
            0 <= b < usable_specs(msgs, i, names).len() ==> match (#[trigger] usable_specs(
                msgs,
                i,
                names,
            )[b]).kind {
                FieldSpecKind::Msg(e) => (e as int) < registered_count(msgs, i),
                FieldSpecKind::Str => true,
            },
    decreases names.len(),
{
    if names.len() > 0 {
        lemma_usable_specs_backward(msgs, i, names.drop_first());
        let specs = usable_specs(msgs, i, names);
        let rest = usable_specs(msgs, i, names.drop_first());
        assert forall|b: int| 0 <= b < specs.len() implies match (#[trigger] specs[b]).kind {
            FieldSpecKind::Msg(e) => (e as int) < registered_count(msgs, i),
            FieldSpecKind::Str => true,
        } by {
            if specs.len() > rest.len() {
                if b == 0 {
                    match first_field_with(msgs[i].fields@, names[0]@) {
                        Some(k) => {
                            match msgs[i].fields@[k].kind {
                                FieldDescKind::Message(m) => {
                                    lemma_registered_count_le(msgs, m as int, i);
                                    lemma_registered_count_bounds(msgs, m as int);
                                },
                                _ => {},
                            }
                        },
                        None => {},
                    }
                } else {
                    assert(specs[b] == rest[b - 1]);
                }
            } else {
                assert(specs[b] == rest[b]);
            }
        }
    }
}

/// The registry a pool builds is well-formed.
pub proof fn lemma_registry_prefix_wf(msgs: Seq<MessageDesc>, upto: int)
    requires
        upto <= msgs.len(),
        msgs.len() <= usize::MAX,
    ensures
        registry_wf(registry_prefix(msgs, upto)),
    decreases upto,
{
    if upto > 0 {
        lemma_registry_prefix_wf(msgs, upto - 1);
        let prev = registry_prefix(msgs, upto - 1);
        let cur = registry_prefix(msgs, upto);
        lemma_registry_prefix_len(msgs, upto - 1);
        if registers(msgs, upto - 1) {
            lemma_usable_specs_backward(msgs, upto - 1, msgs[upto - 1].signer_fields->Some_0@);
            assert forall|a: int, b: int|
                0 <= a < cur.len() && 0 <= b < cur[a].fields.len() implies match (
            #[trigger] cur[a].fields[b]).kind {
                FieldSpecKind::Msg(m) => (m as int) < a,
                FieldSpecKind::Str => true,
            } by {
                if a < prev.len() {
                    assert(cur[a] == prev[a]);
                } else {
                    assert(cur[a] == message_entry(msgs, upto - 1));
                }
            }
        } else {
            assert(cur =~= prev);
        }
    }
}

/// Builds the signer registry from a descriptor pool, exactly as the
/// pool's validation rules say: a message registers when its signer
/// option is present and non-empty and at least one named field is
/// usable — a string, or a nested message that itself registers; its
/// entry carries exactly the usable fields' declared numbers and kinds,
/// in option order. A named field that is not declared on its message is
/// a hard error, and the build fails exactly when one exists.
#[verifier::loop_isolation(false)]
#[verifier::rlimit(100)]
pub fn find_signer_msgs(pool: &DescriptorPool) -> (r: Result<SignerRegistry, RegistryError>)
    ensures
        match r {
            Err(e) => e is FieldNotFound && !pool_fields_ok(pool.spec_msgs()),
            Ok(reg) => pool_fields_ok(pool.spec_msgs()) && reg@ == registry_spec(
                pool.spec_msgs(),
            ),
        },
{
    proof {
        use_type_invariant(pool);
    }
    let msgs = pool.msgs();
    let ghost msv = pool.spec_msgs();
    let mut entries: Vec<RegistryEntry> = Vec::new();
    let mut reg_idx: Vec<Option<usize>> = Vec::new();
    let mut i: usize = 0;
    proof {
        assert(entries.deep_view() =~= registry_prefix(msv, 0));
    }
    while i < msgs.len()
        invariant
            i <= msv.len(),
            reg_idx@.len() == i,
            entries.deep_view() =~= registry_prefix(msv, i as int),
            entries@.len() == registered_count(msv, i as int),
            forall|j: int| 0 <= j < i ==> names_ok(msv, j),
            forall|j: int|
                0 <= j < i ==> ((#[trigger] reg_idx@[j]) is Some <==> registers(msv, j)),
            forall|j: int|
                0 <= j < i ==> ((#[trigger] reg_idx@[j]) matches Some(e) ==> e as int
                    == registered_count(msv, j)),
        decreases msv.len() - i,
    {
        proof {
            lemma_registry_prefix_len(msv, i as int);
        }
        let m = &msgs[i];
        let mut specs: Vec<FieldSpec> = Vec::new();
        let mut option_nonempty = false;
        match &m.signer_fields {
            None => {},
            Some(sf) => {
                if sf.len() > 0 {
                    option_nonempty = true;
                    let mut t: usize = 0;
                    proof {
                        assert(sf@.skip(0) =~= sf@);
                        assert(usable_specs(msv, i as int, sf@) =~= specs@ + usable_specs(
                            msv,
                            i as int,
                            sf@.skip(0),
                        ));
                    }
                    while t < sf.len()
                        invariant
                            t <= sf@.len(),
                            m.signer_fields matches Some(sfx) && sfx@ == sf@,
                            usable_specs(msv, i as int, sf@) =~= specs@ + usable_specs(
                                msv,
                                i as int,
                                sf@.skip(t as int),
                            ),
                            forall|u: int|
                                0 <= u < t ==> first_field_with(
                                    msv[i as int].fields@,
                                    (#[trigger] sf@[u])@,
                                ) is Some,
                        decreases sf@.len() - t,
                    {
                        proof {
                            assert(sf@.skip(t as int)[0] == sf@[t as int]);
                            assert(sf@.skip(t as int).drop_first() =~= sf@.skip(t as int + 1));
                        }
                        let name = &sf[t];
                        let mut found: Option<usize> = None;
                        let mut k: usize = 0;
                        while k < m.fields.len()
                            invariant
                                k <= m.fields@.len(),
                                match found {
                                    Some(f) => f < m.fields@.len() && m.fields@[
                                        f as int
                                    ].name@ == name@ && (forall|v: int|
                                        0 <= v < f ==> (#[trigger] m.fields@[v]).name@
                                            != name@),
                                    None => forall|v: int|
                                        0 <= v < k ==> (#[trigger] m.fields@[v]).name@ != name@,
                                },
                            decreases m.fields@.len() - k,
                        {
                            if found.is_none() && m.fields[k].name == *name {
                                found = Some(k);
                            }
                            k = k + 1;
                        }
                        let k = match found {
                            Some(k) => k,
                            None => {
                                proof {
                                    lemma_first_field_none(m.fields@, name@);
                                    assert(!names_ok(msv, i as int));
                                }
                                return Err(RegistryError::FieldNotFound);
                            },
                        };
                        proof {
                            lemma_first_field_at(m.fields@, name@, k as int);
                        }
                        match &m.fields[k].kind {
                            FieldDescKind::Str => {
                                specs.push(
                                    FieldSpec {
                                        number: m.fields[k].number,
                                        kind: FieldSpecKind::Str,
                                    },
                                );
                            },
                            FieldDescKind::Message(ci) => {
                                let ci = *ci;
                                proof {
                                    assert(msv[i as int].fields@[k as int].kind
                                        == FieldDescKind::Message(ci));
                                    assert((ci as int) < i as int);
                                }
                                match reg_idx[ci] {
                                    Some(e) => {
                                        specs.push(
                                            FieldSpec {
                                                number: m.fields[k].number,
                                                kind: FieldSpecKind::Msg(e),
                                            },
                                        );
                                    },
                                    None => {},
                                }
                            },
                            FieldDescKind::Other => {},
                        }
                        t = t + 1;
                    }
                    proof {
                        assert(sf@.skip(sf@.len() as int) =~= Seq::<String>::empty());
                        assert(specs@ + Seq::<FieldSpec>::empty() =~= specs@);
                        assert(specs@ =~= usable_specs(msv, i as int, sf@));
                    }
                }
            },
        }
        proof {
            assert(names_ok(msv, i as int));
        }
        let ghost es0 = entries.deep_view();
        if option_nonempty && specs.len() > 0 {
            let entry = RegistryEntry { type_url: m.type_url.clone(), fields: specs };
            let ghost ev = entry@;
            entries.push(entry);
            reg_idx.push(Some(entries.len() - 1));
            proof {
                assert(registers(msv, i as int));
                assert(ev =~~= message_entry(msv, i as int));
                assert(entries.deep_view() =~~= es0.push(ev));
                assert(registry_prefix(msv, i as int + 1) =~= registry_prefix(
                    msv,
                    i as int,
                ).push(message_entry(msv, i as int)));
            }
        } else {
            reg_idx.push(None);
            proof {
                assert(!registers(msv, i as int));
                assert(registry_prefix(msv, i as int + 1) =~= registry_prefix(msv, i as int));
            }
        }
        i = i + 1;
    }
    proof {
        lemma_registry_prefix_wf(msv, msv.len() as int);
        assert(registry_wf(entries.deep_view()));
    }
    match SignerRegistry::new(entries) {
        Some(reg) => Ok(reg),
        None => Err(RegistryError::FieldNotFound),
    }
}

proof fn lemma_first_field_at(fields: Seq<FieldDesc>, name: Seq<char>, k: int)
    requires
        0 <= k < fields.len(),
        fields[k].name@ == name,
        forall|v: int| 0 <= v < k ==> (#[trigger] fields[v]).name@ != name,
    ensures
        first_field_with(fields, name) == Some(k),
    decreases fields.len(),
{
    if k > 0 {
        lemma_first_field_at(fields.drop_first(), name, k - 1);
    }
}

proof fn lemma_first_field_none(fields: Seq<FieldDesc>, name: Seq<char>)
    requires
        forall|v: int| 0 <= v < fields.len() ==> (#[trigger] fields[v]).name@ != name,
    ensures
        first_field_with(fields, name) is None,
    decreases fields.len(),
{
    if fields.len() > 0 {
        lemma_first_field_none(fields.drop_first(), name);
    }
}

/// The signer strings of an opaque message under a registry: unknown type
/// URLs are reported as carrying no signer, malformed payloads as decode
/// failures.
pub open spec fn signers_of_any(reg: Seq<RegistryEntryV>, msg: crate::domain::AnyMsgV) -> Result<
    Seq<Seq<u8>>,
    ProtosError,
> {
    match registry_lookup(reg, msg.type_url) {
        None => Err(ProtosError::NoSignerInMsg),
        Some(i) => match extract_entry(reg, i, msg.value) {
            None => Err(ProtosError::Decode),
            Some(ss) => Ok(ss),
        },
    }
}

} // verus!

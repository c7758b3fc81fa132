//! The decode cache.
//!
//! A bounded working set of decoded instructions keyed by base address,
//! with a per-entry lifetime and a recency-weighted eviction policy:
//! - every [`append`](DecodeCache::append) ages each existing entry by one,
//!   biasing eviction toward instructions that have not been freshly decoded
//!   relative to more recently decoded neighbours;
//! - [`age`](DecodeCache::age) ages every entry by one and removes the
//!   entries that reach zero — the only path that evicts an entry;
//! - [`take`](DecodeCache::take) refreshes the lifetime of a hit;
//! - [`populate`](DecodeCache::populate) drives the instruction codec over a
//!   byte source and appends each decoded instruction at the address it was
//!   read from.

use vstd::prelude::*;

use crate::instruction::{DecodeError, Instruction};
use crate::stream::ByteSource;

verus! {

/// One cached decode result: the address the instruction was decoded from,
/// the instruction, and the entry's remaining lifetime.
#[derive(Debug, Clone, Copy, PartialEq, Eq, Structural)]
pub struct DecodeCacheEntry {
    /// The address of the first byte the instruction was decoded from; the
    /// cache key.
    pub base_address: u64,
    pub instruction: Instruction,
    /// The remaining survival count before eviction by aging.
    pub lifetime: u64,
}

/// The decode cache: the entries in insertion order, the lifetime a fresh or
/// refreshed entry receives, and how many instructions one `populate` call
/// may insert.
#[derive(Debug, Clone)]
pub struct DecodeCache {
    pub decoded: Vec<DecodeCacheEntry>,
    pub initial_lifetime: u64,
    pub chunk_size: u64,
}

/// The entry with its lifetime aged down by one, saturating at zero.
pub open spec fn spec_aged(entry: DecodeCacheEntry) -> DecodeCacheEntry {
    DecodeCacheEntry {
        base_address: entry.base_address,
        instruction: entry.instruction,
        lifetime: if entry.lifetime > 0 {
            (entry.lifetime - 1) as u64
        } else {
            0
        },
    }
}

/// The entries that survive an append at `address`: every entry of another
/// address, aged down by one, in order.
pub open spec fn spec_survivors(entries: Seq<DecodeCacheEntry>, address: u64) -> Seq<
    DecodeCacheEntry,
>
    decreases entries.len(),
{
    if entries.len() == 0 {
        Seq::empty()
    } else {
        (if entries[0].base_address == address {
            Seq::empty()
        } else {
            seq![spec_aged(entries[0])]
        }) + spec_survivors(entries.skip(1), address)
    }
}

/// The entries after an append: the aged survivors, with the fresh entry for
/// `address` at the end.
pub open spec fn spec_append(
    entries: Seq<DecodeCacheEntry>,
    address: u64,
    instruction: Instruction,
    initial_lifetime: u64,
) -> Seq<DecodeCacheEntry> {
    spec_survivors(entries, address).push(
        DecodeCacheEntry { base_address: address, instruction, lifetime: initial_lifetime },
    )
}

/// The entries after one aging pass: every entry whose lifetime exceeds one
/// stays with its lifetime decremented; the rest reach zero and are removed.
pub open spec fn spec_age(entries: Seq<DecodeCacheEntry>) -> Seq<DecodeCacheEntry>
    decreases entries.len(),
{
    if entries.len() == 0 {
        Seq::empty()
    } else {
        (if entries[0].lifetime > 1 {
            seq![spec_aged(entries[0])]
        } else {
            Seq::empty()
        }) + spec_age(entries.skip(1))
    }
}

/// The first entry with the given base address, front to back.
pub open spec fn spec_find(entries: Seq<DecodeCacheEntry>, address: u64) -> Option<
    DecodeCacheEntry,
>
    decreases entries.len(),
{
    if entries.len() == 0 {
        None
    } else if entries[0].base_address == address {
        Some(entries[0])
    } else {
        spec_find(entries.skip(1), address)
    }
}

/// The index of the first entry with the given base address, or -1.
pub open spec fn spec_find_index(entries: Seq<DecodeCacheEntry>, address: u64) -> int
    decreases entries.len(),
{
    if entries.len() == 0 {
        -1
    } else if entries[0].base_address == address {
        0
    } else {
        let rest = spec_find_index(entries.skip(1), address);
        if rest == -1 {
            -1
        } else {
            rest + 1
        }
    }
}

/// Survivor filtering distributes over concatenation.
pub proof fn lemma_survivors_concat(
    left: Seq<DecodeCacheEntry>,
    right: Seq<DecodeCacheEntry>,
    address: u64,
)
    ensures
        spec_survivors(left + right, address) == spec_survivors(left, address) + spec_survivors(
            right,
            address,
        ),
    decreases left.len(),
{
    if left.len() == 0 {
        assert(left + right =~= right);
        assert(spec_survivors(left, address) + spec_survivors(right, address) =~= spec_survivors(
            right,
            address,
        ));
    } else {
        assert((left + right).skip(1) =~= left.skip(1) + right);
        lemma_survivors_concat(left.skip(1), right, address);
        assert(spec_survivors(left + right, address) =~= spec_survivors(left, address)
            + spec_survivors(right, address));
    }
}

/// Aging distributes over concatenation.
pub proof fn lemma_age_concat(left: Seq<DecodeCacheEntry>, right: Seq<DecodeCacheEntry>)
    ensures
        spec_age(left + right) == spec_age(left) + spec_age(right),
    decreases left.len(),
{
    if left.len() == 0 {
        assert(left + right =~= right);
        assert(spec_age(left) + spec_age(right) =~= spec_age(right));
    } else {
        assert((left + right).skip(1) =~= left.skip(1) + right);
        lemma_age_concat(left.skip(1), right);
        assert(spec_age(left + right) =~= spec_age(left) + spec_age(right));
    }
}

/// A sequence without any entry for `address` has no find result, and no
/// find index.
pub proof fn lemma_find_none(entries: Seq<DecodeCacheEntry>, address: u64)
    requires
        forall|k: int| 0 <= k < entries.len() ==> entries[k].base_address != address,
    ensures
        spec_find(entries, address) is None,
        spec_find_index(entries, address) == -1,
    decreases entries.len(),
{
    if entries.len() > 0 {
        assert(forall|k: int|
            0 <= k < entries.skip(1).len() ==> entries.skip(1)[k] == entries[k + 1]
                && entries[k + 1].base_address != address);
        lemma_find_none(entries.skip(1), address);
    }
}

/// Where every entry before index `i` has another address and the entry at
/// `i` has the sought one, the find result is the entry at `i` and the find
/// index is `i`.
pub proof fn lemma_find_at(entries: Seq<DecodeCacheEntry>, address: u64, i: int)
    requires
        0 <= i < entries.len(),
        entries[i].base_address == address,
        forall|k: int| 0 <= k < i ==> entries[k].base_address != address,
    ensures
        spec_find(entries, address) == Some(entries[i]),
        spec_find_index(entries, address) == i,
    decreases i,
{
    if i > 0 {
        assert(forall|k: int|
            0 <= k < i - 1 ==> entries.skip(1)[k] == entries[k + 1] && entries[k
                + 1].base_address != address);
        assert(entries.skip(1)[i - 1] == entries[i]);
        lemma_find_at(entries.skip(1), address, i - 1);
    }
}

/// Whether the entries carry pairwise distinct base addresses.
pub open spec fn spec_unique_addresses(entries: Seq<DecodeCacheEntry>) -> bool {
    forall|i: int, j: int|
        0 <= i < j < entries.len() ==> (#[trigger] entries[i]).base_address != (
        #[trigger] entries[j]).base_address
}

/// Finding in a concatenation looks left first.
pub proof fn lemma_find_concat(
    left: Seq<DecodeCacheEntry>,
    right: Seq<DecodeCacheEntry>,
    address: u64,
)
    ensures
        spec_find(left + right, address) == (match spec_find(left, address) {
            Some(entry) => Some(entry),
            None => spec_find(right, address),
        }),
    decreases left.len(),
{
    if left.len() == 0 {
        assert(left + right =~= right);
    } else {
        assert((left + right).skip(1) =~= left.skip(1) + right);
        lemma_find_concat(left.skip(1), right, address);
    }
}

/// What an append's survivor pass does to a lookup: the appended address
/// itself is gone, and every other lookup result is aged by one.
pub proof fn lemma_find_survivors(entries: Seq<DecodeCacheEntry>, appended: u64, address: u64)
    ensures
        spec_find(spec_survivors(entries, appended), address) == (if address == appended {
            None
        } else {
            match spec_find(entries, address) {
                Some(entry) => Some(spec_aged(entry)),
                None => None,
            }
        }),
    decreases entries.len(),
{
    if entries.len() > 0 {
        let head = entries[0];
        let head_part: Seq<DecodeCacheEntry> = if head.base_address == appended {
            Seq::empty()
        } else {
            seq![spec_aged(head)]
        };
        assert(spec_survivors(entries, appended) == head_part + spec_survivors(
            entries.skip(1),
            appended,
        ));
        assert(spec_find(Seq::<DecodeCacheEntry>::empty(), address) is None);
        assert(seq![spec_aged(head)].skip(1) =~= Seq::<DecodeCacheEntry>::empty());
        assert(spec_find(seq![spec_aged(head)], address) == (if head.base_address == address {
            Some(spec_aged(head))
        } else {
            None::<DecodeCacheEntry>
        }));
        lemma_find_concat(head_part, spec_survivors(entries.skip(1), appended), address);
        lemma_find_survivors(entries.skip(1), appended, address);
    }
}

/// What an append does to a lookup: the appended address finds the fresh
/// entry, and every other lookup result is aged by one.
pub proof fn lemma_find_append(
    entries: Seq<DecodeCacheEntry>,
    appended: u64,
    instruction: Instruction,
    initial_lifetime: u64,
    address: u64,
)
    ensures
        spec_find(spec_append(entries, appended, instruction, initial_lifetime), address) == (
        if address == appended {
            Some(
                DecodeCacheEntry {
                    base_address: appended,
                    instruction,
                    lifetime: initial_lifetime,
                },
            )
        } else {
            match spec_find(entries, address) {
                Some(entry) => Some(spec_aged(entry)),
                None => None,
            }
        }),
{
    let fresh = DecodeCacheEntry { base_address: appended, instruction, lifetime: initial_lifetime };
    let survivors = spec_survivors(entries, appended);
    assert(spec_append(entries, appended, instruction, initial_lifetime) =~= survivors
        + seq![fresh]);
    lemma_find_concat(survivors, seq![fresh], address);
    lemma_find_survivors(entries, appended, address);
    assert(seq![fresh].skip(1) =~= Seq::<DecodeCacheEntry>::empty());
    assert(spec_find(Seq::<DecodeCacheEntry>::empty(), address) is None);
    assert(spec_find(seq![fresh], address) == (if appended == address {
        Some(fresh)
    } else {
        None::<DecodeCacheEntry>
    }));
}

/// The cache entries after a sequence of appends, each with its address.
pub open spec fn spec_append_all(
    entries: Seq<DecodeCacheEntry>,
    appends: Seq<(u64, Instruction)>,
    initial_lifetime: u64,
) -> Seq<DecodeCacheEntry>
    decreases appends.len(),
{
    if appends.len() == 0 {
        entries
    } else {
        spec_append_all(
            spec_append(entries, appends[0].0, appends[0].1, initial_lifetime),
            appends.skip(1),
            initial_lifetime,
        )
    }
}

/// Appends at other addresses leave an entry in place, aging its lifetime
/// by one per append, floored at zero.
pub proof fn lemma_append_all_ages(
    entries: Seq<DecodeCacheEntry>,
    appends: Seq<(u64, Instruction)>,
    initial_lifetime: u64,
    address: u64,
    entry: DecodeCacheEntry,
)
    requires
        forall|j: int| 0 <= j < appends.len() ==> (#[trigger] appends[j]).0 != address,
        spec_find(entries, address) == Some(entry),
    ensures
        spec_find(spec_append_all(entries, appends, initial_lifetime), address) == Some(
            DecodeCacheEntry {
                base_address: entry.base_address,
                instruction: entry.instruction,
                lifetime: if entry.lifetime >= appends.len() {
                    (entry.lifetime - appends.len()) as u64
                } else {
                    0
                },
            },
        ),
    decreases appends.len(),
{
    if appends.len() == 0 {
        assert(entry == DecodeCacheEntry {
            base_address: entry.base_address,
            instruction: entry.instruction,
            lifetime: entry.lifetime,
        });
    } else {
        lemma_find_append(entries, appends[0].0, appends[0].1, initial_lifetime, address);
        assert(forall|j: int|
            0 <= j < appends.skip(1).len() ==> (#[trigger] appends.skip(1)[j]) == appends[j + 1]
                && appends[j + 1].0 != address);
        lemma_append_all_ages(
            spec_append(entries, appends[0].0, appends[0].1, initial_lifetime),
            appends.skip(1),
            initial_lifetime,
            address,
            spec_aged(entry),
        );
    }
}

/// The append-aging law: an entry appended before `n` further appends at
/// other addresses is still present and carries lifetime
/// `initial_lifetime - n`, floored at zero.
pub proof fn lemma_append_then_aging(
    entries: Seq<DecodeCacheEntry>,
    address: u64,
    instruction: Instruction,
    appends: Seq<(u64, Instruction)>,
    initial_lifetime: u64,
)
    requires
        forall|j: int| 0 <= j < appends.len() ==> (#[trigger] appends[j]).0 != address,
    ensures
        spec_find(
            spec_append_all(
                spec_append(entries, address, instruction, initial_lifetime),
                appends,
                initial_lifetime,
            ),
            address,
        ) == Some(
            DecodeCacheEntry {
                base_address: address,
                instruction,
                lifetime: if initial_lifetime >= appends.len() {
                    (initial_lifetime - appends.len()) as u64
                } else {
                    0
                },
            },
        ),
{
    lemma_find_append(entries, address, instruction, initial_lifetime, address);
    lemma_append_all_ages(
        spec_append(entries, address, instruction, initial_lifetime),
        appends,
        initial_lifetime,
        address,
        DecodeCacheEntry { base_address: address, instruction, lifetime: initial_lifetime },
    );
}

/// The cache entries after `times` aging passes.
pub open spec fn spec_age_all(entries: Seq<DecodeCacheEntry>, times: nat) -> Seq<DecodeCacheEntry>
    decreases times,
{
    if times == 0 {
        entries
    } else {
        spec_age_all(spec_age(entries), (times - 1) as nat)
    }
}

/// Aging invents no address: an address absent before an aging pass is
/// absent after it.
pub proof fn lemma_age_absent(entries: Seq<DecodeCacheEntry>, address: u64)
    requires
        forall|k: int| 0 <= k < entries.len() ==> (#[trigger] entries[k]).base_address != address,
    ensures
        spec_find(spec_age(entries), address) is None,
        forall|k: int|
            0 <= k < spec_age(entries).len() ==> (#[trigger] spec_age(entries)[k]).base_address
                != address,
    decreases entries.len(),
{
    if entries.len() > 0 {
        assert(forall|k: int|
            0 <= k < entries.skip(1).len() ==> (#[trigger] entries.skip(1)[k]) == entries[k + 1]
                && entries[k + 1].base_address != address);
        lemma_age_absent(entries.skip(1), address);
        let head = entries[0];
        let head_part: Seq<DecodeCacheEntry> = if head.lifetime > 1 {
            seq![spec_aged(head)]
        } else {
            Seq::empty()
        };
        assert(spec_age(entries) == head_part + spec_age(entries.skip(1)));
        assert(spec_find(Seq::<DecodeCacheEntry>::empty(), address) is None);
        assert(seq![spec_aged(head)].skip(1) =~= Seq::<DecodeCacheEntry>::empty());
        assert(spec_find(seq![spec_aged(head)], address) == (if head.base_address == address {
            Some(spec_aged(head))
        } else {
            None::<DecodeCacheEntry>
        }));
        lemma_find_concat(head_part, spec_age(entries.skip(1)), address);
        assert(forall|k: int|
            0 <= k < spec_age(entries).len() ==> (#[trigger] spec_age(entries)[k]).base_address
                != address) by {
            assert(spec_age(entries) == head_part + spec_age(entries.skip(1)));
            assert(forall|k: int|
                0 <= k < head_part.len() ==> (#[trigger] head_part[k]).base_address
                    != address);
        };
    }
}

/// What one aging pass does to a lookup in a cache with unique addresses:
/// an entry whose lifetime exceeds one survives with it decremented; any
/// other entry is evicted and its address no longer found.
pub proof fn lemma_find_age(entries: Seq<DecodeCacheEntry>, address: u64)
    requires
        spec_unique_addresses(entries),
    ensures
        spec_find(spec_age(entries), address) == (match spec_find(entries, address) {
            Some(entry) => if entry.lifetime > 1 {
                Some(spec_aged(entry))
            } else {
                None::<DecodeCacheEntry>
            },
            None => None::<DecodeCacheEntry>,
        }),
        spec_unique_addresses(spec_age(entries)),
    decreases entries.len(),
{
    if entries.len() == 0 {
        assert(spec_unique_addresses(spec_age(entries)));
    } else {
        let head = entries[0];
        let rest = entries.skip(1);
        assert(forall|k: int| 0 <= k < rest.len() ==> (#[trigger] rest[k]) == entries[k + 1]);
        assert(spec_unique_addresses(rest));
        lemma_find_age(rest, address);
        let head_part: Seq<DecodeCacheEntry> = if head.lifetime > 1 {
            seq![spec_aged(head)]
        } else {
            Seq::empty()
        };
        assert(spec_age(entries) == head_part + spec_age(rest));
        assert(spec_find(Seq::<DecodeCacheEntry>::empty(), address) is None);
        assert(seq![spec_aged(head)].skip(1) =~= Seq::<DecodeCacheEntry>::empty());
        assert(spec_find(seq![spec_aged(head)], address) == (if head.base_address == address {
            Some(spec_aged(head))
        } else {
            None::<DecodeCacheEntry>
        }));
        lemma_find_concat(head_part, spec_age(rest), address);
        if head.base_address == address {
            assert(forall|k: int|
                0 <= k < rest.len() ==> (#[trigger] rest[k]).base_address != address);
            lemma_age_absent(rest, address);
        }
        assert(spec_unique_addresses(spec_age(entries))) by {
            assert(spec_age(entries) == head_part + spec_age(rest));
            assert(forall|k: int|
                0 <= k < rest.len() ==> (#[trigger] rest[k]).base_address != head.base_address);
            lemma_age_absent(rest, head.base_address);
            let aged = spec_age(entries);
            assert forall|i: int, j: int| 0 <= i < j < aged.len() implies (#[trigger] aged[i]).base_address
                != (#[trigger] aged[j]).base_address by {
                if i >= head_part.len() {
                    assert(aged[i] == spec_age(rest)[i - head_part.len()]);
                    assert(aged[j] == spec_age(rest)[j - head_part.len()]);
                } else {
                    assert(aged[i] == spec_aged(head));
                    assert(aged[j] == spec_age(rest)[j - head_part.len()]);
                }
            };
        };
    }
}

/// The iterated-aging law: `k` aging passes over a cache with unique
/// addresses leave each entry whose lifetime exceeds `k` in place with
/// lifetime reduced by `k`, and evict every other entry — a lookup of an
/// evicted address returns absent.
pub proof fn lemma_age_iterated(entries: Seq<DecodeCacheEntry>, times: nat, address: u64)
    requires
        spec_unique_addresses(entries),
    ensures
        spec_find(spec_age_all(entries, times), address) == (match spec_find(entries, address) {
            Some(entry) => if times == 0 {
                Some(entry)
            } else if entry.lifetime > times {
                Some(
                    DecodeCacheEntry {
                        base_address: entry.base_address,
                        instruction: entry.instruction,
                        lifetime: (entry.lifetime - times) as u64,
                    },
                )
            } else {
                None::<DecodeCacheEntry>
            },
            None => None::<DecodeCacheEntry>,
        }),
        spec_unique_addresses(spec_age_all(entries, times)),
    decreases times,
{
    if times == 0 {
        if let Some(entry) = spec_find(entries, address) {
            assert(entry == DecodeCacheEntry {
                base_address: entry.base_address,
                instruction: entry.instruction,
                lifetime: entry.lifetime,
            });
        }
    } else {
        lemma_find_age(entries, address);
        lemma_age_iterated(spec_age(entries), (times - 1) as nat, address);
        assert(spec_age_all(entries, times) == spec_age_all(spec_age(entries), (times - 1) as nat));
        match spec_find(entries, address) {
            Some(entry) => {
                if entry.lifetime > 1 {
                    let aged = spec_aged(entry);
                    assert(spec_find(spec_age(entries), address) == Some(aged));
                    if entry.lifetime > times {
                        assert(aged.lifetime > times - 1);
                        assert(aged.lifetime - (times - 1) == entry.lifetime - times);
                    } else {
                        assert(!(aged.lifetime > times - 1));
                    }
                } else {
                    assert(spec_find(spec_age(entries), address) is None);
                    assert(!(entry.lifetime > times));
                }
            },
            None => {},
        }
    }
}

/// The concatenated encodings of a sequence of instructions.
pub open spec fn spec_encodings(instructions: Seq<Instruction>) -> Seq<u8>
    decreases instructions.len(),
{
    if instructions.len() == 0 {
        Seq::empty()
    } else {
        instructions[0].spec_encode() + spec_encodings(instructions.skip(1))
    }
}

/// The cache entries after appending each instruction in turn, each at the
/// address its own encoding starts at when the first encoding starts at
/// `offset`.
pub open spec fn spec_insert_all(
    entries: Seq<DecodeCacheEntry>,
    instructions: Seq<Instruction>,
    offset: int,
    initial_lifetime: u64,
) -> Seq<DecodeCacheEntry>
    decreases instructions.len(),
{
    if instructions.len() == 0 {
        entries
    } else {
        spec_insert_all(
            spec_append(entries, offset as u64, instructions[0], initial_lifetime),
            instructions.skip(1),
            offset + instructions[0].spec_encode().len(),
            initial_lifetime,
        )
    }
}

/// Appending one more instruction extends the concatenated encodings by its
/// encoding.
pub proof fn lemma_encodings_push(instructions: Seq<Instruction>, instruction: Instruction)
    ensures
        spec_encodings(instructions.push(instruction)) == spec_encodings(instructions)
            + instruction.spec_encode(),
    decreases instructions.len(),
{
    if instructions.len() == 0 {
        assert(instructions.push(instruction)[0] == instruction);
        assert(instructions.push(instruction).skip(1) =~= Seq::<Instruction>::empty());
        assert(spec_encodings(Seq::<Instruction>::empty()) =~= Seq::<u8>::empty());
        assert(spec_encodings(instructions) =~= Seq::<u8>::empty());
        assert(spec_encodings(instructions.push(instruction)) =~= spec_encodings(instructions)
            + instruction.spec_encode());
    } else {
        assert(instructions.push(instruction)[0] == instructions[0]);
        assert(instructions.push(instruction).skip(1) =~= instructions.skip(1).push(instruction));
        lemma_encodings_push(instructions.skip(1), instruction);
        assert(spec_encodings(instructions.push(instruction)) =~= spec_encodings(instructions)
            + instruction.spec_encode());
    }
}

/// Inserting one more instruction appends it after the earlier insertions,
/// at the offset just past their encodings.
pub proof fn lemma_insert_all_push(
    entries: Seq<DecodeCacheEntry>,
    instructions: Seq<Instruction>,
    instruction: Instruction,
    offset: int,
    initial_lifetime: u64,
)
    ensures
        spec_insert_all(entries, instructions.push(instruction), offset, initial_lifetime)
            == spec_append(
            spec_insert_all(entries, instructions, offset, initial_lifetime),
            (offset + spec_encodings(instructions).len()) as u64,
            instruction,
            initial_lifetime,
        ),
    decreases instructions.len(),
{
    if instructions.len() == 0 {
        assert(instructions.push(instruction)[0] == instruction);
        assert(instructions.push(instruction).skip(1) =~= Seq::<Instruction>::empty());
        assert(spec_insert_all(entries, instructions, offset, initial_lifetime) == entries);
        assert(spec_encodings(instructions) =~= Seq::<u8>::empty());
        let appended = spec_append(entries, offset as u64, instruction, initial_lifetime);
        assert(spec_insert_all(
            appended,
            Seq::<Instruction>::empty(),
            offset + instruction.spec_encode().len(),
            initial_lifetime,
        ) == appended);
    } else {
        assert(instructions.push(instruction)[0] == instructions[0]);
        assert(instructions.push(instruction).skip(1) =~= instructions.skip(1).push(instruction));
        lemma_insert_all_push(
            spec_append(entries, offset as u64, instructions[0], initial_lifetime),
            instructions.skip(1),
            instruction,
            offset + instructions[0].spec_encode().len(),
            initial_lifetime,
        );
    }
}

/// What one `populate` call did, witnessed by the decoded instructions: at
/// most a chunk of legally constructed instructions whose encodings are
/// exactly the consumed prefix of the source, each appended at the address
/// its encoding starts at; and the call stopped only at a full chunk, at a
/// decode error, or on a faulting source.
pub open spec fn spec_populated(
    old_entries: Seq<DecodeCacheEntry>,
    initial_lifetime: u64,
    chunk_size: u64,
    source_bytes: Seq<u8>,
    source_offset: int,
    source_faultless: bool,
    new_entries: Seq<DecodeCacheEntry>,
    count: u64,
    instructions: Seq<Instruction>,
) -> bool {
    &&& instructions.len() == count
    &&& count <= chunk_size
    &&& (forall|j: int| 0 <= j < instructions.len() ==> (#[trigger] instructions[j]).wf())
    &&& spec_encodings(instructions).len() <= source_bytes.len()
    &&& source_bytes.take(spec_encodings(instructions).len() as int) == spec_encodings(
        instructions,
    )
    &&& new_entries == spec_insert_all(old_entries, instructions, source_offset, initial_lifetime)
    &&& (count == chunk_size || Instruction::spec_decode(
        source_bytes.skip(spec_encodings(instructions).len() as int),
    ) is Err || !source_faultless)
}

impl DecodeCache {
    /// Look an address up without touching any entry's lifetime.
    pub fn find(&self, address: u64) -> (r: Option<Instruction>)
        ensures
            r == match spec_find(self.decoded@, address) {
                Some(entry) => Some(entry.instruction),
                None => None::<Instruction>,
            },
    {
        let n = self.decoded.len();
        let mut i: usize = 0;
        while i < n
            invariant
                0 <= i <= n,
                n == self.decoded@.len(),
                forall|k: int| 0 <= k < i ==> self.decoded@[k].base_address != address,
            decreases n - i,
        {
            let entry = self.decoded[i];
            if entry.base_address == address {
                proof {
                    lemma_find_at(self.decoded@, address, i as int);
                }
                return Some(entry.instruction);
            }
            i = i + 1;
        }
        proof {
            lemma_find_none(self.decoded@, address);
        }
        None
    }

    /// Look an address up; on a hit, reset the entry's lifetime to the
    /// initial lifetime — a cache hit refreshes recency — and return a copy
    /// of the stored instruction. On a miss the cache is left unchanged. No
    /// other entry is altered either way.
    pub fn take(&mut self, address: u64) -> (r: Option<Instruction>)
        ensures
            final(self).initial_lifetime == old(self).initial_lifetime,
            final(self).chunk_size == old(self).chunk_size,
            match spec_find(old(self).decoded@, address) {
                None => r is None && final(self).decoded@ == old(self).decoded@,
                Some(entry) => {
                    &&& r == Some(entry.instruction)
                    &&& final(self).decoded@ == old(self).decoded@.update(
                        spec_find_index(old(self).decoded@, address),
                        DecodeCacheEntry {
                            base_address: address,
                            instruction: entry.instruction,
                            lifetime: old(self).initial_lifetime,
                        },
                    )
                },
            },
    {
        let n = self.decoded.len();
        let mut i: usize = 0;
        while i < n
            invariant
                0 <= i <= n,
                n == self.decoded@.len(),
                *self == *old(self),
                forall|k: int| 0 <= k < i ==> self.decoded@[k].base_address != address,
            decreases n - i,
        {
            let entry = self.decoded[i];
            if entry.base_address == address {
                proof {
                    lemma_find_at(self.decoded@, address, i as int);
                }
                let refreshed = DecodeCacheEntry {
                    base_address: address,
                    instruction: entry.instruction,
                    lifetime: self.initial_lifetime,
                };
                self.decoded[i] = refreshed;
                return Some(entry.instruction);
            }
            i = i + 1;
        }
        proof {
            lemma_find_none(self.decoded@, address);
        }
        None
    }

    /// Insert a decoded instruction at `address`: every existing entry's
    /// lifetime is first aged down by one — a cache-wide recency decay
    /// triggered by each insertion — any previous entry for the same address
    /// leaves, and the fresh entry enters at the end with the initial
    /// lifetime.
    pub fn append(&mut self, address: u64, instruction: Instruction)
        ensures
            final(self).initial_lifetime == old(self).initial_lifetime,
            final(self).chunk_size == old(self).chunk_size,
            final(self).decoded@ == spec_append(
                old(self).decoded@,
                address,
                instruction,
                old(self).initial_lifetime,
            ),
    {
        let n = self.decoded.len();
        let mut kept: Vec<DecodeCacheEntry> = Vec::new();
        let mut i: usize = 0;
        while i < n
            invariant
                0 <= i <= n,
                n == self.decoded@.len(),
                *self == *old(self),
                kept@ == spec_survivors(self.decoded@.take(i as int), address),
            decreases n - i,
        {
            let entry = self.decoded[i];
            proof {
                assert(self.decoded@.take(i + 1) =~= self.decoded@.take(i as int) + seq![entry]);
                lemma_survivors_concat(self.decoded@.take(i as int), seq![entry], address);
                assert(seq![entry].skip(1) =~= Seq::<DecodeCacheEntry>::empty());
                assert(spec_survivors(Seq::<DecodeCacheEntry>::empty(), address)
                    =~= Seq::<DecodeCacheEntry>::empty());
                assert(spec_survivors(seq![entry], address) =~= (if entry.base_address == address {
                    Seq::<DecodeCacheEntry>::empty()
                } else {
                    seq![spec_aged(entry)]
                }));
            }
            if entry.base_address != address {
                kept.push(
                    DecodeCacheEntry {
                        base_address: entry.base_address,
                        instruction: entry.instruction,
                        lifetime: if entry.lifetime > 0 {
                            entry.lifetime - 1
                        } else {
                            0
                        },
                    },
                );
            }
            proof {
                assert(kept@ =~= spec_survivors(self.decoded@.take(i + 1), address));
            }
            i = i + 1;
        }
        kept.push(
            DecodeCacheEntry {
                base_address: address,
                instruction,
                lifetime: self.initial_lifetime,
            },
        );
        proof {
            assert(self.decoded@.take(n as int) =~= self.decoded@);
        }
        self.decoded = kept;
    }

    /// Age the whole cache: decrement every entry's lifetime by one, with a
    /// floor at zero, and remove every entry whose lifetime reaches zero.
    /// This is the only operation that permanently evicts an entry.
    pub fn age(&mut self)
        ensures
            final(self).initial_lifetime == old(self).initial_lifetime,
            final(self).chunk_size == old(self).chunk_size,
            final(self).decoded@ == spec_age(old(self).decoded@),
    {
        let n = self.decoded.len();
        let mut kept: Vec<DecodeCacheEntry> = Vec::new();
        let mut i: usize = 0;
        while i < n
            invariant
                0 <= i <= n,
                n == self.decoded@.len(),
                *self == *old(self),
                kept@ == spec_age(self.decoded@.take(i as int)),
            decreases n - i,
        {
            let entry = self.decoded[i];
            proof {
                assert(self.decoded@.take(i + 1) =~= self.decoded@.take(i as int) + seq![entry]);
                lemma_age_concat(self.decoded@.take(i as int), seq![entry]);
                assert(seq![entry].skip(1) =~= Seq::<DecodeCacheEntry>::empty());
                assert(spec_age(Seq::<DecodeCacheEntry>::empty())
                    =~= Seq::<DecodeCacheEntry>::empty());
                assert(spec_age(seq![entry]) =~= (if entry.lifetime > 1 {
                    seq![spec_aged(entry)]
                } else {
                    Seq::<DecodeCacheEntry>::empty()
                }));
            }
            if entry.lifetime > 1 {
                kept.push(
                    DecodeCacheEntry {
                        base_address: entry.base_address,
                        instruction: entry.instruction,
                        lifetime: entry.lifetime - 1,
                    },
                );
            }
            proof {
                assert(kept@ =~= spec_age(self.decoded@.take(i + 1)));
            }
            i = i + 1;
        }
        proof {
            assert(self.decoded@.take(n as int) =~= self.decoded@);
        }
        self.decoded = kept;
    }

    /// Bulk-populate the cache from a byte source: repeatedly decode an
    /// instruction and append it at the address it was read from, until
    /// `chunk_size` instructions have been inserted or the source is
    /// exhausted. A decode error other than the clean end of the stream
    /// aborts the call: if at least one instruction was already inserted in
    /// this call the partial count is returned as success, otherwise the
    /// error is propagated and the cache is left unchanged. Never more than
    /// `chunk_size` entries enter per call, and never more than one per
    /// decoded instruction; each inserted instruction, re-encoded, is
    /// exactly the byte run consumed for it.
    #[verifier::rlimit(100)]
    #[verifier::spinoff_prover]
    pub fn populate<S: ByteSource>(&mut self, source: &mut S) -> (r: Result<u64, DecodeError>)
        requires
            old(source).inv(),
        ensures
            final(source).inv(),
            final(source).faultless() == old(source).faultless(),
            final(self).initial_lifetime == old(self).initial_lifetime,
            final(self).chunk_size == old(self).chunk_size,
            match r {
                Ok(count) => exists|instructions: Seq<Instruction>|
                    #[trigger] spec_populated(
                        old(self).decoded@,
                        old(self).initial_lifetime,
                        old(self).chunk_size,
                        old(source).remaining(),
                        old(source).offset(),
                        old(source).faultless(),
                        final(self).decoded@,
                        count,
                        instructions,
                    ),
                Err(e) => {
                    &&& final(self).decoded@ == old(self).decoded@
                    &&& old(self).chunk_size > 0
                    &&& match e {
                        DecodeError::StreamRead => !old(source).faultless(),
                        _ => Instruction::spec_decode(old(source).remaining()) == Err::<
                            (Instruction, int),
                            DecodeError,
                        >(e),
                    }
                },
            },
    {
        let mut count: u64 = 0;
        let ghost mut instructions: Seq<Instruction> = Seq::empty();
        proof {
            assert(spec_encodings(instructions) =~= Seq::<u8>::empty());
            assert(old(source).remaining().take(0) =~= Seq::<u8>::empty());
            assert(old(source).remaining().skip(0) =~= old(source).remaining());
        }
        while count < self.chunk_size
            invariant
                source.inv(),
                source.faultless() == old(source).faultless(),
                self.initial_lifetime == old(self).initial_lifetime,
                self.chunk_size == old(self).chunk_size,
                count <= self.chunk_size,
                instructions.len() == count,
                forall|j: int| 0 <= j < instructions.len() ==> (#[trigger] instructions[j]).wf(),
                spec_encodings(instructions).len() <= old(source).remaining().len(),
                old(source).remaining().take(spec_encodings(instructions).len() as int)
                    == spec_encodings(instructions),
                source.remaining() == old(source).remaining().skip(
                    spec_encodings(instructions).len() as int,
                ),
                source.offset() == old(source).offset() + spec_encodings(instructions).len(),
                self.decoded@ == spec_insert_all(
                    old(self).decoded@,
                    instructions,
                    old(source).offset(),
                    old(self).initial_lifetime,
                ),
            decreases self.chunk_size - count,
        {
            if source.at_end() {
                proof {
                    assert(spec_populated(
                        old(self).decoded@,
                        old(self).initial_lifetime,
                        old(self).chunk_size,
                        old(source).remaining(),
                        old(source).offset(),
                        old(source).faultless(),
                        self.decoded@,
                        count,
                        instructions,
                    ));
                    assert(Ok::<u64, DecodeError>(count)->Ok_0 == count);
                    assert(exists|witness: Seq<Instruction>|
                        #[trigger] spec_populated(
                            old(self).decoded@,
                            old(self).initial_lifetime,
                            old(self).chunk_size,
                            old(source).remaining(),
                            old(source).offset(),
                            old(source).faultless(),
                            self.decoded@,
                            Ok::<u64, DecodeError>(count)->Ok_0,
                            witness,
                        ));
                }
                return Ok(count);
            }
            let address = source.position();
            let ghost before = *source;
            match Instruction::from_encoded(source) {
                Ok(instruction) => {
                    proof {
                        crate::instruction::lemma_decode_then_encode(before.remaining());
                        let pair = Instruction::spec_decode(before.remaining())->Ok_0;
                        let k = pair.1;
                        let len = spec_encodings(instructions).len() as int;
                        lemma_encodings_push(instructions, instruction);
                        assert(old(source).remaining().take(len + k) =~= old(
                            source,
                        ).remaining().take(len) + before.remaining().take(k));
                        assert(source.remaining() =~= old(source).remaining().skip(len + k));
                        lemma_insert_all_push(
                            old(self).decoded@,
                            instructions,
                            instruction,
                            old(source).offset(),
                            old(self).initial_lifetime,
                        );
                    }
                    self.append(address, instruction);
                    proof {
                        instructions = instructions.push(instruction);
                    }
                    count = count + 1;
                },
                Err(error) => {
                    if count > 0 {
                        proof {
                            assert(spec_populated(
                                old(self).decoded@,
                                old(self).initial_lifetime,
                                old(self).chunk_size,
                                old(source).remaining(),
                                old(source).offset(),
                                old(source).faultless(),
                                self.decoded@,
                                count,
                                instructions,
                            ));
                            assert(Ok::<u64, DecodeError>(count)->Ok_0 == count);
                            assert(exists|witness: Seq<Instruction>|
                                #[trigger] spec_populated(
                                    old(self).decoded@,
                                    old(self).initial_lifetime,
                                    old(self).chunk_size,
                                    old(source).remaining(),
                                    old(source).offset(),
                                    old(source).faultless(),
                                    self.decoded@,
                                    Ok::<u64, DecodeError>(count)->Ok_0,
                                    witness,
                                ));
                        }
                        return Ok(count);
                    }
                    proof {
                        assert(old(source).remaining().take(0) =~= Seq::<u8>::empty());
                        assert(self.decoded@ == old(self).decoded@);
                    }
                    return Err(error);
                },
            }
        }
        proof {
            assert(spec_populated(
                old(self).decoded@,
                old(self).initial_lifetime,
                old(self).chunk_size,
                old(source).remaining(),
                old(source).offset(),
                old(source).faultless(),
                self.decoded@,
                count,
                instructions,
            ));
            assert(Ok::<u64, DecodeError>(count)->Ok_0 == count);
            assert(exists|witness: Seq<Instruction>|
                #[trigger] spec_populated(
                    old(self).decoded@,
                    old(self).initial_lifetime,
                    old(self).chunk_size,
                    old(source).remaining(),
                    old(source).offset(),
                    old(source).faultless(),
                    self.decoded@,
                    Ok::<u64, DecodeError>(count)->Ok_0,
                    witness,
                ));
        }
        Ok(count)
    }
}

} // verus!

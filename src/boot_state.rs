use vstd::prelude::*;
use crate::cpu::{execute, Cpu, Executed, ENTRY_POINT};
use crate::memory_bus::{
    disables_boot_rom, fresh_bus, read_state, BusState, MemoryBus, FILL, RAM_SIZE,
    RAM_START,
};
use crate::vm::{post_boot_registers, post_boot_table, written_all};

verus! {

/// The value the last write to `address` in `writes` left, or `default`
/// where none wrote there.
pub open spec fn last_write(writes: Seq<(u16, u8)>, address: u16, default: u8) -> u8
    decreases writes.len(),
{
    if writes.len() == 0 {
        default
    } else if writes.last().0 == address {
        writes.last().1
    } else {
        last_write(writes.drop_last(), address, default)
    }
}

/// Whether some write in `writes` removes the boot-ROM overlay.
pub open spec fn any_disable(writes: Seq<(u16, u8)>) -> bool
    decreases writes.len(),
{
    if writes.len() == 0 {
        false
    } else {
        any_disable(writes.drop_last()) || disables_boot_rom(writes.last().0, writes.last().1)
    }
}

/// RAM after `writes`: each byte is the last value written to its address.
pub open spec fn ram_after(ram: Seq<u8>, writes: Seq<(u16, u8)>) -> Seq<u8> {
    Seq::new(
        ram.len(),
        |i: int|
            if i < RAM_SIZE {
                last_write(writes, (i + RAM_START) as u16, ram[i])
            } else {
                ram[i]
            },
    )
}

/// No two writes go to the same address.
pub open spec fn distinct_addresses(writes: Seq<(u16, u8)>) -> bool {
    forall|j: int, k: int| 0 <= j < k < writes.len() ==> writes[j].0 != writes[k].0
}

proof fn lemma_any_disable_exists(writes: Seq<(u16, u8)>)
    ensures
        any_disable(writes) <==> exists|j: int|
            0 <= j < writes.len() && disables_boot_rom(#[trigger] writes[j].0, writes[j].1),
    decreases writes.len(),
{
    if writes.len() > 0 {
        let w0 = writes.drop_last();
        lemma_any_disable_exists(w0);
        if any_disable(w0) {
            let j = choose|j: int| 0 <= j < w0.len() && disables_boot_rom(#[trigger] w0[j].0, w0[j].1);
            assert(writes[j] == w0[j]);
        }
        if exists|j: int| 0 <= j < writes.len() && disables_boot_rom(#[trigger] writes[j].0, writes[j].1) {
            let j = choose|j: int| 0 <= j < writes.len() && disables_boot_rom(#[trigger] writes[j].0, writes[j].1);
            if j < writes.len() - 1 {
                assert(w0[j] == writes[j]);
            }
        }
    }
}

/// Writes leave everything but RAM and the overlay flag as it was.
proof fn lemma_written_all_keeps(s: BusState, writes: Seq<(u16, u8)>)
    ensures
        written_all::<MemoryBus>(s, writes) == (BusState {
            ram: written_all::<MemoryBus>(s, writes).ram,
            boot_active: s.boot_active && !any_disable(writes),
            ..s
        }),
        written_all::<MemoryBus>(s, writes).ram.len() == s.ram.len(),
    decreases writes.len(),
{
    if writes.len() > 0 {
        lemma_written_all_keeps(s, writes.drop_last());
    }
}

/// The writes' effect on RAM is `ram_after`.
proof fn lemma_written_all_ram(s: BusState, writes: Seq<(u16, u8)>)
    ensures
        written_all::<MemoryBus>(s, writes).ram == ram_after(s.ram, writes),
    decreases writes.len(),
{
    lemma_written_all_keeps(s, writes);
    if writes.len() > 0 {
        let w0 = writes.drop_last();
        lemma_written_all_ram(s, w0);
        let a = writes.last().0;
        let v = writes.last().1;
        if a < RAM_START {
            assert(ram_after(s.ram, writes) =~= ram_after(s.ram, w0));
        } else if a - RAM_START < s.ram.len() {
            assert(ram_after(s.ram, writes) =~= ram_after(s.ram, w0).update(a - RAM_START, v));
        } else {
            assert(ram_after(s.ram, writes) =~= ram_after(s.ram, w0));
        }
    }
}

proof fn lemma_last_write_twice(writes: Seq<(u16, u8)>, address: u16, default: u8)
    ensures
        last_write(writes, address, last_write(writes, address, default)) == last_write(
            writes,
            address,
            default,
        ),
    decreases writes.len(),
{
    if writes.len() > 0 {
        lemma_last_write_twice(writes.drop_last(), address, default);
    }
}

proof fn lemma_last_write_entry(writes: Seq<(u16, u8)>, address: u16, value: u8, default: u8)
    requires
        distinct_addresses(writes),
        writes.contains((address, value)),
    ensures
        last_write(writes, address, default) == value,
    decreases writes.len(),
{
    let j = choose|j: int| 0 <= j < writes.len() && writes[j] == (address, value);
    let n = writes.len() - 1;
    if writes.last() != (address, value) {
        if writes.last().0 == address {
            assert(j < n);
            assert(writes[j].0 == writes[n].0);
        } else {
            let w0 = writes.drop_last();
            assert(w0[j] == writes[j]);
            lemma_last_write_entry(w0, address, value, default);
        }
    }
}

proof fn lemma_last_write_absent(writes: Seq<(u16, u8)>, address: u16, default: u8)
    requires
        forall|j: int| 0 <= j < writes.len() ==> #[trigger] writes[j].0 != address,
    ensures
        last_write(writes, address, default) == default,
    decreases writes.len(),
{
    if writes.len() > 0 {
        let w0 = writes.drop_last();
        assert forall|j: int| 0 <= j < w0.len() implies #[trigger] w0[j].0 != address by {
            assert(w0[j] == writes[j]);
        }
        lemma_last_write_absent(w0, address, default);
    }
}

/// Two write lists with the same entries, each address written once, give
/// every address the same last value.
proof fn lemma_same_entries_last_write(
    w1: Seq<(u16, u8)>,
    w2: Seq<(u16, u8)>,
    address: u16,
    default: u8,
)
    requires
        distinct_addresses(w1),
        distinct_addresses(w2),
        forall|x: (u16, u8)| w1.contains(x) <==> w2.contains(x),
    ensures
        last_write(w1, address, default) == last_write(w2, address, default),
{
    if exists|j: int| 0 <= j < w1.len() && #[trigger] w1[j].0 == address {
        let j = choose|j: int| 0 <= j < w1.len() && #[trigger] w1[j].0 == address;
        let v = w1[j].1;
        assert(w1.contains((address, v)));
        lemma_last_write_entry(w1, address, v, default);
        lemma_last_write_entry(w2, address, v, default);
    } else {
        assert forall|k: int| 0 <= k < w2.len() implies #[trigger] w2[k].0 != address by {
            if w2[k].0 == address {
                assert(w2.contains(w2[k]));
                let j = choose|j: int| 0 <= j < w1.len() && w1[j] == w2[k];
                assert(w1[j].0 == address);
            }
        }
        lemma_last_write_absent(w1, address, default);
        lemma_last_write_absent(w2, address, default);
    }
}

proof fn lemma_table_ascending(j: int)
    requires
        0 <= j < post_boot_table().len() - 1,
    ensures
        post_boot_table()[j].0 < post_boot_table()[j + 1].0,
{
    assert(post_boot_table().len() == 31);
}

proof fn lemma_table_distinct()
    ensures
        distinct_addresses(post_boot_table()),
{
    let t = post_boot_table();
    assert forall|j: int, k: int| 0 <= j < k < t.len() implies t[j].0 != t[k].0 by {
        lemma_table_rises(j, k);
    }
}

proof fn lemma_table_rises(j: int, k: int)
    requires
        0 <= j < k < post_boot_table().len(),
    ensures
        post_boot_table()[j].0 < post_boot_table()[k].0,
    decreases k - j,
{
    lemma_table_ascending(k - 1);
    if j < k - 1 {
        lemma_table_rises(j, k - 1);
    }
}

/// Applying the post-boot writes twice leaves the bus as applying them once.
pub proof fn lemma_post_boot_idempotent(s: BusState)
    ensures
        written_all::<MemoryBus>(written_all::<MemoryBus>(s, post_boot_table()), post_boot_table())
            == written_all::<MemoryBus>(s, post_boot_table()),
{
    let t = post_boot_table();
    let s1 = written_all::<MemoryBus>(s, t);
    let s2 = written_all::<MemoryBus>(s1, t);
    lemma_written_all_keeps(s, t);
    lemma_written_all_keeps(s1, t);
    lemma_written_all_ram(s, t);
    lemma_written_all_ram(s1, t);
    assert forall|i: int| 0 <= i < s.ram.len() implies s2.ram[i] == s1.ram[i] by {
        if i < RAM_SIZE {
            lemma_last_write_twice(t, (i + RAM_START) as u16, s.ram[i]);
        }
    }
    assert(s2.ram =~= s1.ram);
}

/// The post-boot writes made in any order, each once, leave the bus as the
/// table's order does.
pub proof fn lemma_post_boot_order_free(s: BusState, writes: Seq<(u16, u8)>)
    requires
        distinct_addresses(writes),
        forall|x: (u16, u8)| writes.contains(x) <==> post_boot_table().contains(x),
    ensures
        written_all::<MemoryBus>(s, writes) == written_all::<MemoryBus>(s, post_boot_table()),
{
    let t = post_boot_table();
    lemma_table_distinct();
    lemma_written_all_keeps(s, t);
    lemma_written_all_keeps(s, writes);
    lemma_written_all_ram(s, t);
    lemma_written_all_ram(s, writes);
    lemma_any_disable_exists(t);
    lemma_any_disable_exists(writes);
    assert(!any_disable(t)) by {
        assert forall|j: int| 0 <= j < t.len() implies !disables_boot_rom(#[trigger] t[j].0, t[j].1) by {
            if j > 0 {
                lemma_table_rises(0, j);
            }
            if j < t.len() - 1 {
                lemma_table_rises(j, t.len() - 1);
            }
        }
    }
    assert(!any_disable(writes)) by {
        if any_disable(writes) {
            let j = choose|j: int| 0 <= j < writes.len() && disables_boot_rom(#[trigger] writes[j].0, writes[j].1);
            assert(writes.contains(writes[j]));
            let k = choose|k: int| 0 <= k < t.len() && t[k] == writes[j];
            assert(disables_boot_rom(t[k].0, t[k].1));
        }
    }
    assert forall|i: int| 0 <= i < s.ram.len() implies ram_after(s.ram, writes)[i] == ram_after(s.ram, t)[i] by {
        if i < RAM_SIZE {
            lemma_same_entries_last_write(writes, t, (i + RAM_START) as u16, s.ram[i]);
        }
    }
    assert(ram_after(s.ram, writes) =~= ram_after(s.ram, t));
}

/// The boot-ROM overlay answers reads in its range for as long as no write
/// has removed it, and once one has, it is gone for good.
pub proof fn lemma_boot_overlay_lifetime(s: BusState, writes: Seq<(u16, u8)>, address: u16)
    ensures
        written_all::<MemoryBus>(s, writes).boot_active <==> s.boot_active && !exists|j: int|
            0 <= j < writes.len() && disables_boot_rom(#[trigger] writes[j].0, writes[j].1),
        s.boot_active && !(exists|j: int|
            0 <= j < writes.len() && disables_boot_rom(#[trigger] writes[j].0, writes[j].1))
            && address < RAM_START && address < s.boot.len() ==> read_state(
            written_all::<MemoryBus>(s, writes),
            address,
        ) == s.boot[address as int],
        (exists|j: int|
            0 <= j < writes.len() && disables_boot_rom(#[trigger] writes[j].0, writes[j].1))
            ==> read_state(written_all::<MemoryBus>(s, writes), address) == read_state(
            BusState { boot_active: false, ..written_all::<MemoryBus>(s, writes) },
            address,
        ),
{
    lemma_written_all_keeps(s, writes);
    lemma_any_disable_exists(writes);
}

/// On a new bus, an address no write has touched reads as `FILL`, both in
/// RAM and where neither the cartridge nor the boot ROM reaches.
pub proof fn lemma_unwritten_reads_fill(
    boot: Seq<u8>,
    cart: Seq<u8>,
    writes: Seq<(u16, u8)>,
    address: u16,
)
    requires
        forall|j: int| 0 <= j < writes.len() ==> #[trigger] writes[j].0 != address,
        address >= RAM_START || (address >= cart.len() && address >= boot.len()),
    ensures
        read_state(written_all::<MemoryBus>(fresh_bus(boot, cart), writes), address) == FILL,
{
    let s = fresh_bus(boot, cart);
    lemma_written_all_keeps(s, writes);
    lemma_written_all_ram(s, writes);
    if address >= RAM_START {
        let i = address - RAM_START;
        assert(((i + RAM_START) as u16) == address);
        lemma_last_write_absent(writes, address, FILL);
    }
}

/// With the boot program skipped, a cartridge whose entry point holds the
/// halt instruction takes one step of four cycles that moves the program
/// counter past that one byte and nowhere else, and writes nothing.
pub proof fn lemma_halting_entry(s: BusState)
    requires
        s.boot.len() <= ENTRY_POINT || !s.boot_active,
        s.cart.len() > ENTRY_POINT,
        s.cart[ENTRY_POINT as int] == 0x76,
    ensures
        execute::<MemoryBus>(post_boot_registers(), written_all::<MemoryBus>(s, post_boot_table()))
            == Some(
            Executed {
                next: Cpu { pc: (ENTRY_POINT + 1) as u16, halted: true, ..post_boot_registers() },
                write: None,
                cycles: 4,
            },
        ),
{
    lemma_written_all_keeps(s, post_boot_table());
}

} // verus!

//! The mint list codec: a 4-byte little-endian count followed by a flat array of
//! 32-byte key slots.
use vstd::prelude::*;
use crate::types::{ErrorCode, Pubkey, PUBKEY_SIZE};

verus! {

/// Size in bytes of the count that starts a mint list.
pub const COUNT_SIZE: usize = 4;

/// The unsigned integer stored little-endian in the four bytes from `at`.
pub open spec fn le_u32(b: Seq<u8>, at: int) -> int {
    b[at] + b[at + 1] * 256 + b[at + 2] * 65536 + b[at + 3] * 16777216
}

/// The count stored at the start of a mint list.
pub open spec fn list_count(data: Seq<u8>) -> int {
    le_u32(data, 0)
}

/// Offset of slot `i`.
pub open spec fn slot_start(i: int) -> int {
    4 + 32 * i
}

/// The 32 bytes of slot `i`.
pub open spec fn slot(data: Seq<u8>, i: int) -> Seq<u8> {
    data.subrange(slot_start(i), slot_start(i) + 32)
}

/// The keys that a mint list holds: its first `count` slots.
pub open spec fn mint_list(data: Seq<u8>) -> Seq<Seq<u8>> {
    Seq::new(list_count(data) as nat, |i: int| slot(data, i))
}

/// A mint list with room for `capacity` keys, holding at most that many.
pub open spec fn list_layout(data: Seq<u8>, capacity: int) -> bool {
    &&& data.len() == slot_start(capacity)
    &&& list_count(data) <= capacity
}

/// Reads the count of a mint list.
pub fn get_config_count(data: &[u8]) -> (r: usize)
    requires
        data@.len() >= COUNT_SIZE,
    ensures
        r == list_count(data@),
{
    let v: u32 = data[0] as u32 + (data[1] as u32) * 256 + (data[2] as u32) * 65536 + (data[3] as u32)
        * 16777216;
    v as usize
}

/// Stores `count` little-endian in the first four bytes.
fn write_count(data: &mut Vec<u8>, count: u32)
    requires
        old(data)@.len() >= COUNT_SIZE,
    ensures
        final(data)@.len() == old(data)@.len(),
        list_count(final(data)@) == count,
        forall|j: int| COUNT_SIZE <= j < final(data)@.len() ==> final(data)@[j] == old(data)@[j],
{
    let b0: u8 = (count % 256) as u8;
    let b1: u8 = ((count / 256) % 256) as u8;
    let b2: u8 = ((count / 65536) % 256) as u8;
    let b3: u8 = (count / 16777216) as u8;
    assert(b0 + b1 * 256 + b2 * 65536 + b3 * 16777216 == count) by (nonlinear_arith)
        requires
            b0 == count % 256,
            b1 == (count / 256) % 256,
            b2 == (count / 65536) % 256,
            b3 == count / 16777216,
    ;
    data.set(0, b0);
    data.set(1, b1);
    data.set(2, b2);
    data.set(3, b3);
}

/// Whether the 32 bytes from `at` are `key`.
fn slot_matches(data: &[u8], at: usize, key: &Pubkey) -> (r: bool)
    requires
        at + PUBKEY_SIZE <= data@.len(),
    ensures
        r == (data@.subrange(at as int, at + 32) == key@),
{
    let len = data.len();
    let mut b: usize = 0;
    while b < PUBKEY_SIZE
        invariant
            b <= PUBKEY_SIZE,
            len == data@.len(),
            at + PUBKEY_SIZE <= data@.len(),
            forall|j: int| 0 <= j < b ==> data@[at + j] == key@[j],
        decreases PUBKEY_SIZE - b,
    {
        if data[at + b] != key.bytes[b] {
            assert(data@.subrange(at as int, at + 32)[b as int] != key@[b as int]);
            return false;
        }
        b = b + 1;
    }
    assert(data@.subrange(at as int, at + 32) =~= key@);
    true
}

/// Whether the mint list in `data` holds `mint_address`.
pub fn check_mint_address(data: &[u8], mint_address: &Pubkey) -> (r: bool)
    requires
        data@.len() >= COUNT_SIZE,
        data@.len() >= slot_start(list_count(data@)),
    ensures
        r == mint_list(data@).contains(mint_address@),
{
    let count = get_config_count(data);
    let len = data.len();
    let mut i: usize = 0;
    while i < count
        invariant
            count == list_count(data@),
            len == data@.len(),
            i <= count,
            data@.len() >= slot_start(count as int),
            forall|j: int| 0 <= j < i ==> slot(data@, j) != mint_address@,
        decreases count - i,
    {
        let position: usize = COUNT_SIZE + i * PUBKEY_SIZE;
        if slot_matches(data, position, mint_address) {
            assert(mint_list(data@)[i as int] == mint_address@);
            return true;
        }
        i = i + 1;
    }
    assert(!mint_list(data@).contains(mint_address@)) by {
        if mint_list(data@).contains(mint_address@) {
            let j = choose|j: int| 0 <= j < mint_list(data@).len() && mint_list(data@)[j] == mint_address@;
            assert(slot(data@, j) == mint_address@);
        }
    }
    false
}

/// Whether `keys.len()` keys written from slot `start` stay within `capacity`
/// slots, `start` itself included.
pub open spec fn range_fits(capacity: int, start: int, n: int) -> bool {
    start < capacity && start + n <= capacity
}

/// Overwrites the slots from `start` with `keys`, and raises the count to
/// `start + keys.len()` when that exceeds it. Fails, changing nothing, when
/// `start` is outside the capacity or the keys would run past it.
pub fn write_range(data: &mut Vec<u8>, capacity: usize, start: usize, keys: &Vec<Pubkey>) -> (r: Result<
    (),
    ErrorCode,
>)
    requires
        list_layout(old(data)@, capacity as int),
        capacity <= u32::MAX,
    ensures
        list_layout(final(data)@, capacity as int),
        !range_fits(capacity as int, start as int, keys@.len() as int) ==> r == Err::<(), ErrorCode>(
            ErrorCode::IndexGreaterThanLength,
        ) && final(data)@ == old(data)@,
        range_fits(capacity as int, start as int, keys@.len() as int) ==> r == Ok::<(), ErrorCode>(()) && ({
            &&& list_count(final(data)@) == if start + keys@.len() > list_count(old(data)@) {
                start + keys@.len()
            } else {
                list_count(old(data)@)
            }
            &&& forall|i: int|
                0 <= i < capacity ==> #[trigger] slot(final(data)@, i) == if start <= i < start + keys@.len() {
                    keys@[i - start]@
                } else {
                    slot(old(data)@, i)
                }
        }),
{
    if start >= capacity || keys.len() > capacity - start {
        return Err(ErrorCode::IndexGreaterThanLength);
    }
    overwrite_slots(data, capacity, start, keys);
    Ok(())
}

/// Overwrites the slots from `start` with `keys`, and raises the count to
/// `start + keys.len()` when that exceeds it; both lie within capacity.
fn overwrite_slots(data: &mut Vec<u8>, capacity: usize, start: usize, keys: &Vec<Pubkey>)
    requires
        list_layout(old(data)@, capacity as int),
        start + keys@.len() <= capacity,
        capacity <= u32::MAX,
    ensures
        list_layout(final(data)@, capacity as int),
        list_count(final(data)@) == if start + keys@.len() > list_count(old(data)@) {
            start + keys@.len()
        } else {
            list_count(old(data)@)
        },
        forall|i: int|
            0 <= i < capacity ==> #[trigger] slot(final(data)@, i) == if start <= i < start + keys@.len() {
                keys@[i - start]@
            } else {
                slot(old(data)@, i)
            },
{
    let n = keys.len();
    let len = data.len();
    let mut k: usize = 0;
    while k < n
        invariant
            n == keys@.len(),
            len == data@.len(),
            start + n <= capacity,
            k <= n,
            data@.len() == old(data)@.len(),
            old(data)@.len() == slot_start(capacity as int),
            forall|j: int|
                0 <= j < data@.len() && !(slot_start(start as int) <= j < slot_start(start + k)) ==> data@[j]
                    == old(data)@[j],
            forall|i: int, b: int|
                0 <= i < k && 0 <= b < 32 ==> data@[slot_start(start + i) + b] == keys@[i]@[b],
        decreases n - k,
    {
        let base: usize = COUNT_SIZE + (start + k) * PUBKEY_SIZE;
        let key = &keys[k];
        let mut b: usize = 0;
        while b < PUBKEY_SIZE
            invariant
                n == keys@.len(),
                start + n <= capacity,
                k < n,
                len == data@.len(),
                *key == keys@[k as int],
                base == slot_start(start + k),
                b <= PUBKEY_SIZE,
                data@.len() == old(data)@.len(),
                old(data)@.len() == slot_start(capacity as int),
                forall|j: int|
                    0 <= j < data@.len() && !(slot_start(start as int) <= j < base + b) ==> data@[j]
                        == old(data)@[j],
                forall|i: int, c: int|
                    0 <= i < k && 0 <= c < 32 ==> data@[slot_start(start + i) + c] == keys@[i]@[c],
                forall|c: int| 0 <= c < b ==> data@[base + c] == key@[c],
            decreases PUBKEY_SIZE - b,
        {
            data.set(base + b, key.bytes[b]);
            b = b + 1;
        }
        k = k + 1;
    }
    assert(data@[0] == old(data)@[0] && data@[1] == old(data)@[1] && data@[2] == old(data)@[2]
        && data@[3] == old(data)@[3]);
    let old_count = get_config_count(data.as_slice());
    let end = start + n;
    if end > old_count {
        write_count(data, end as u32);
    }
    assert forall|i: int| 0 <= i < capacity implies #[trigger] slot(data@, i) == if start <= i < start
        + keys@.len() {
        keys@[i - start]@
    } else {
        slot(old(data)@, i)
    } by {
        if start <= i < start + keys@.len() {
            assert(slot(data@, i) =~= keys@[i - start]@);
        } else {
            assert(slot(data@, i) =~= slot(old(data)@, i));
        }
    }
}

} // verus!

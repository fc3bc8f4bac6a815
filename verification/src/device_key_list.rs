use vstd::prelude::*;

use crate::bytes::{bytes_eq, bytes_list_view, contains_bytes};

verus! {

/// The error codes of the device-key-list-cell-type contract.
#[derive(Debug, Clone, Copy, PartialEq, Eq, Structural)]
pub enum ErrorCode {
    IndexOutOfBound,
    ItemMissing,
    LengthNotEnough,
    Encoding,
    FoundKeyListInInput,
    WitnessArgsInvalid,
    NoKeyListInOutput,
    LockArgLengthIncorrect,
    InvalidLock,
    KeyListParseError,
    InvalidTransactionStructure,
    KeyListNumberIncorrect,
    UpdateParamsInvalid,
    DestroyParamsInvalid,
    CapacityNotEnough,
    MustUseDasLock,
    InconsistentBalanceCellLocks,
    CapacityReduceTooMuch,
    DuplicatedKeys,
}

/// The number that the contract exits with for each error code.
pub open spec fn error_code_number(e: ErrorCode) -> i8 {
    match e {
        ErrorCode::IndexOutOfBound => 1,
        ErrorCode::ItemMissing => 2,
        ErrorCode::LengthNotEnough => 3,
        ErrorCode::Encoding => 4,
        ErrorCode::FoundKeyListInInput => 50,
        ErrorCode::WitnessArgsInvalid => 51,
        ErrorCode::NoKeyListInOutput => 52,
        ErrorCode::LockArgLengthIncorrect => 53,
        ErrorCode::InvalidLock => 54,
        ErrorCode::KeyListParseError => 55,
        ErrorCode::InvalidTransactionStructure => 56,
        ErrorCode::KeyListNumberIncorrect => 57,
        ErrorCode::UpdateParamsInvalid => 58,
        ErrorCode::DestroyParamsInvalid => 59,
        ErrorCode::CapacityNotEnough => 60,
        ErrorCode::MustUseDasLock => 61,
        ErrorCode::InconsistentBalanceCellLocks => 62,
        ErrorCode::CapacityReduceTooMuch => 63,
        ErrorCode::DuplicatedKeys => 64,
    }
}

impl ErrorCode {
    /// The number that the contract exits with.
    pub fn to_i8(self) -> (r: i8)
        ensures
            r == error_code_number(self),
    {
        match self {
            ErrorCode::IndexOutOfBound => 1,
            ErrorCode::ItemMissing => 2,
            ErrorCode::LengthNotEnough => 3,
            ErrorCode::Encoding => 4,
            ErrorCode::FoundKeyListInInput => 50,
            ErrorCode::WitnessArgsInvalid => 51,
            ErrorCode::NoKeyListInOutput => 52,
            ErrorCode::LockArgLengthIncorrect => 53,
            ErrorCode::InvalidLock => 54,
            ErrorCode::KeyListParseError => 55,
            ErrorCode::InvalidTransactionStructure => 56,
            ErrorCode::KeyListNumberIncorrect => 57,
            ErrorCode::UpdateParamsInvalid => 58,
            ErrorCode::DestroyParamsInvalid => 59,
            ErrorCode::CapacityNotEnough => 60,
            ErrorCode::MustUseDasLock => 61,
            ErrorCode::InconsistentBalanceCellLocks => 62,
            ErrorCode::CapacityReduceTooMuch => 63,
            ErrorCode::DuplicatedKeys => 64,
        }
    }
}

/// A device key as the key list stores it.
pub struct DeviceKey {
    pub main_alg_id: u8,
    pub sub_alg_id: u8,
    pub pubkey: Vec<u8>,
    pub cid: Vec<u8>,
}

/// The value of a device key.
pub struct SpecDeviceKey {
    pub main_alg_id: u8,
    pub sub_alg_id: u8,
    pub pubkey: Seq<u8>,
    pub cid: Seq<u8>,
}

impl View for DeviceKey {
    type V = SpecDeviceKey;

    open spec fn view(&self) -> SpecDeviceKey {
        SpecDeviceKey {
            main_alg_id: self.main_alg_id,
            sub_alg_id: self.sub_alg_id,
            pubkey: self.pubkey@,
            cid: self.cid@,
        }
    }
}

/// Length of the lock arguments of a device-key-list cell.
pub const KEY_LIST_LOCK_ARG_LENGTH: usize = 44;

/// Whether lock arguments of the right length are made of the first key: its two
/// algorithm ids, its pubkey in bytes 2..12, its cid in bytes 12..22, and the same
/// 22 bytes again for the manager.
pub open spec fn lock_arg_matches_key(arg: Seq<u8>, key: SpecDeviceKey) -> bool {
    &&& arg[0] == key.main_alg_id
    &&& arg[1] == key.sub_alg_id
    &&& arg.subrange(2, 12) == key.pubkey
    &&& arg.subrange(12, 22) == key.cid
    &&& arg.subrange(0, 22) == arg.subrange(22, 44)
}

/// What checking lock arguments against the first device key gives.
pub open spec fn spec_verify_key_list_lock_arg(arg: Seq<u8>, key: SpecDeviceKey) -> Result<(), ErrorCode> {
    if arg.len() != KEY_LIST_LOCK_ARG_LENGTH {
        Err(ErrorCode::LockArgLengthIncorrect)
    } else if !lock_arg_matches_key(arg, key) {
        Err(ErrorCode::InvalidLock)
    } else {
        Ok(())
    }
}

/// Checks that the lock arguments of a device-key-list cell are derived from its
/// first device key.
pub fn verify_key_list_lock_arg(lock_arg: &[u8], key: &DeviceKey) -> (r: Result<(), ErrorCode>)
    ensures
        r == spec_verify_key_list_lock_arg(lock_arg@, key@),
{
    if lock_arg.len() != KEY_LIST_LOCK_ARG_LENGTH {
        return Err(ErrorCode::LockArgLengthIncorrect);
    }
    if lock_arg[0] != key.main_alg_id || lock_arg[1] != key.sub_alg_id {
        return Err(ErrorCode::InvalidLock);
    }
    if !bytes_eq(slice_subrange(lock_arg, 2, 12), key.pubkey.as_slice()) {
        return Err(ErrorCode::InvalidLock);
    }
    if !bytes_eq(slice_subrange(lock_arg, 12, 22), key.cid.as_slice()) {
        return Err(ErrorCode::InvalidLock);
    }
    if !bytes_eq(slice_subrange(lock_arg, 0, 22), slice_subrange(lock_arg, 22, 44)) {
        return Err(ErrorCode::InvalidLock);
    }
    Ok(())
}

/// Whether no key occurs twice in a key list.
pub open spec fn keys_distinct(keys: Seq<Seq<u8>>) -> bool {
    forall|i: int, j: int| 0 <= i < j < keys.len() ==> keys[i] != keys[j]
}

/// How many distinct keys of `inp` do not occur in `out`: the size of the set
/// difference of the two key lists, counted along `inp` at the first occurrence of
/// each key.
pub open spec fn distinct_removed(inp: Seq<Seq<u8>>, out: Seq<Seq<u8>>) -> nat
    decreases inp.len(),
{
    if inp.len() == 0 {
        0
    } else {
        let last = inp.last();
        let rest = inp.drop_last();
        distinct_removed(rest, out) + if !out.contains(last) && !rest.contains(last) {
            1nat
        } else {
            0nat
        }
    }
}

/// What checking a key list update gives, where `inp` and `out` are the serialized
/// keys before and after. The new list holds 1 to 10 keys and differs from the old by
/// exactly one key: either one key is appended at the tail and no key occurs twice,
/// or every new key was an old key and exactly one distinct old key is gone.
pub open spec fn spec_verify_key_list_update(inp: Seq<Seq<u8>>, out: Seq<Seq<u8>>) -> Result<(), ErrorCode> {
    if !(0 < out.len() && out.len() < 11) {
        Err(ErrorCode::UpdateParamsInvalid)
    } else if out.len() > inp.len() && out.len() - inp.len() == 1 {
        if !(out.take(inp.len() as int) == inp) {
            Err(ErrorCode::UpdateParamsInvalid)
        } else if !keys_distinct(out) {
            Err(ErrorCode::DuplicatedKeys)
        } else {
            Ok(())
        }
    } else if inp.len() == out.len() + 1 {
        if !(forall|k: Seq<u8>| out.contains(k) ==> inp.contains(k)) {
            Err(ErrorCode::UpdateParamsInvalid)
        } else if distinct_removed(inp, out) != 1 {
            Err(ErrorCode::UpdateParamsInvalid)
        } else {
            Ok(())
        }
    } else {
        Err(ErrorCode::KeyListNumberIncorrect)
    }
}

fn slice_subrange(s: &[u8], start: usize, end: usize) -> (r: &[u8])
    requires
        start <= end <= s@.len(),
    ensures
        r@ == s@.subrange(start as int, end as int),
{
    vstd::slice::slice_subrange(s, start, end)
}

fn is_prefix_of(inp: &Vec<Vec<u8>>, out: &Vec<Vec<u8>>) -> (r: bool)
    requires
        inp@.len() <= out@.len(),
    ensures
        r == (bytes_list_view(out@).take(inp@.len() as int) == bytes_list_view(inp@)),
{
    let mut i: usize = 0;
    while i < inp.len()
        invariant
            inp@.len() <= out@.len(),
            i <= inp@.len(),
            forall|j: int| 0 <= j < i ==> #[trigger] inp@[j]@ == out@[j]@,
        decreases inp@.len() - i,
    {
        if !bytes_eq(inp[i].as_slice(), out[i].as_slice()) {
            assert(bytes_list_view(out@).take(inp@.len() as int)[i as int] != bytes_list_view(inp@)[i as int]);
            return false;
        }
        i = i + 1;
    }
    assert(bytes_list_view(out@).take(inp@.len() as int) =~= bytes_list_view(inp@));
    true
}

fn all_distinct(keys: &Vec<Vec<u8>>) -> (r: bool)
    ensures
        r == keys_distinct(bytes_list_view(keys@)),
{
    let ghost v = bytes_list_view(keys@);
    let mut i: usize = 0;
    while i < keys.len()
        invariant
            v == bytes_list_view(keys@),
            i <= keys@.len(),
            forall|a: int, b: int| 0 <= a < b < i ==> v[a] != v[b],
        decreases keys@.len() - i,
    {
        let mut j: usize = 0;
        while j < i
            invariant
                v == bytes_list_view(keys@),
                i < keys@.len(),
                j <= i,
                forall|a: int, b: int| 0 <= a < b < i ==> v[a] != v[b],
                forall|a: int| 0 <= a < j ==> v[a] != v[i as int],
            decreases i - j,
        {
            if bytes_eq(keys[j].as_slice(), keys[i].as_slice()) {
                assert(v[j as int] == v[i as int]);
                return false;
            }
            j = j + 1;
        }
        i = i + 1;
    }
    true
}

fn all_contained(sub: &Vec<Vec<u8>>, sup: &Vec<Vec<u8>>) -> (r: bool)
    ensures
        r == (forall|k: Seq<u8>| bytes_list_view(sub@).contains(k) ==> bytes_list_view(sup@).contains(k)),
{
    let ghost vs = bytes_list_view(sub@);
    let ghost vp = bytes_list_view(sup@);
    let mut i: usize = 0;
    while i < sub.len()
        invariant
            vs == bytes_list_view(sub@),
            vp == bytes_list_view(sup@),
            i <= sub@.len(),
            forall|a: int| 0 <= a < i ==> vp.contains(#[trigger] vs[a]),
        decreases sub@.len() - i,
    {
        if !contains_bytes(sup, sub[i].as_slice()) {
            assert(vs.contains(vs[i as int]));
            assert(!vp.contains(vs[i as int])) by {
                if vp.contains(vs[i as int]) {
                    let k = choose|k: int| 0 <= k < vp.len() && vp[k] == vs[i as int];
                    assert(sup@[k]@ == sub@[i as int]@);
                }
            }
            return false;
        }
        proof {
            let k = choose|k: int| 0 <= k < sup@.len() && #[trigger] sup@[k]@ == sub@[i as int]@;
            assert(vp[k] == vs[i as int]);
        }
        i = i + 1;
    }
    assert forall|k: Seq<u8>| vs.contains(k) implies vp.contains(k) by {
        let a = choose|a: int| 0 <= a < vs.len() && vs[a] == k;
        assert(vp.contains(vs[a]));
    }
    true
}

fn count_distinct_removed(inp: &Vec<Vec<u8>>, out: &Vec<Vec<u8>>) -> (r: usize)
    ensures
        r == distinct_removed(bytes_list_view(inp@), bytes_list_view(out@)),
{
    let ghost vi = bytes_list_view(inp@);
    let ghost vo = bytes_list_view(out@);
    let mut count: usize = 0;
    let mut i: usize = 0;
    while i < inp.len()
        invariant
            vi == bytes_list_view(inp@),
            vo == bytes_list_view(out@),
            i <= inp@.len(),
            count <= i,
            count == distinct_removed(vi.take(i as int), vo),
        decreases inp@.len() - i,
    {
        let key = inp[i].as_slice();
        let in_out = contains_bytes(out, key);
        let mut seen = false;
        let mut j: usize = 0;
        while j < i
            invariant
                vi == bytes_list_view(inp@),
                i < inp@.len(),
                j <= i,
                key@ == vi[i as int],
                seen == (exists|a: int| 0 <= a < j && vi[a] == vi[i as int]),
            decreases i - j,
        {
            let same = bytes_eq(inp[j].as_slice(), key);
            assert(same == (vi[j as int] == vi[i as int]));
            if same {
                seen = true;
            }
            j = j + 1;
        }
        proof {
            let t = vi.take(i as int + 1);
            assert(t.drop_last() =~= vi.take(i as int));
            assert(t.last() == vi[i as int]);
            assert(in_out == vo.contains(vi[i as int])) by {
                if in_out {
                    let k = choose|k: int| 0 <= k < out@.len() && #[trigger] out@[k]@ == key@;
                    assert(vo[k] == vi[i as int]);
                }
                if vo.contains(vi[i as int]) {
                    let k = choose|k: int| 0 <= k < vo.len() && vo[k] == vi[i as int];
                    assert(out@[k]@ == key@);
                }
            }
            assert(seen == vi.take(i as int).contains(vi[i as int])) by {
                if seen {
                    let a = choose|a: int| 0 <= a < i && vi[a] == vi[i as int];
                    assert(vi.take(i as int)[a] == vi[i as int]);
                }
                if vi.take(i as int).contains(vi[i as int]) {
                    let a = choose|a: int| 0 <= a < i && vi.take(i as int)[a] == vi[i as int];
                    assert(vi[a] == vi[i as int]);
                }
            }
        }
        if !in_out && !seen {
            count = count + 1;
        }
        i = i + 1;
    }
    assert(vi.take(inp@.len() as int) =~= vi);
    count
}

/// Checks a key list update, where `inp` and `out` are the serialized keys of the
/// device-key-list cell before and after the transaction.
pub fn verify_key_list_update(inp: &Vec<Vec<u8>>, out: &Vec<Vec<u8>>) -> (r: Result<(), ErrorCode>)
    ensures
        r == spec_verify_key_list_update(bytes_list_view(inp@), bytes_list_view(out@)),
{
    let ghost vi = bytes_list_view(inp@);
    let ghost vo = bytes_list_view(out@);
    if !(0 < out.len() && out.len() < 11) {
        return Err(ErrorCode::UpdateParamsInvalid);
    }
    if out.len() > inp.len() && out.len() - inp.len() == 1 {
        if !is_prefix_of(inp, out) {
            return Err(ErrorCode::UpdateParamsInvalid);
        }
        if !all_distinct(out) {
            return Err(ErrorCode::DuplicatedKeys);
        }
        Ok(())
    } else if inp.len() > out.len() && inp.len() - out.len() == 1 {
        if !all_contained(out, inp) {
            return Err(ErrorCode::UpdateParamsInvalid);
        }
        if count_distinct_removed(inp, out) != 1 {
            return Err(ErrorCode::UpdateParamsInvalid);
        }
        Ok(())
    } else {
        Err(ErrorCode::KeyListNumberIncorrect)
    }
}

proof fn lemma_distinct_removed_count(inp: Seq<Seq<u8>>, out: Seq<Seq<u8>>)
    ensures
        distinct_removed(inp, out) + inp.to_set().intersect(out.to_set()).len() == inp.to_set().len(),
    decreases inp.len(),
{
    broadcast use vstd::set::group_set_axioms, vstd::seq_lib::seq_to_set_is_finite;

    if inp.len() == 0 {
        assert(inp.to_set() =~= Set::<Seq<u8>>::empty());
        assert(inp.to_set().intersect(out.to_set()) =~= Set::<Seq<u8>>::empty());
    } else {
        let last = inp.last();
        let rest = inp.drop_last();
        lemma_distinct_removed_count(rest, out);
        assert(rest.push(last) =~= inp);
        assert(inp.to_set() =~= rest.to_set().insert(last));
        let o = out.to_set();
        if rest.contains(last) {
            assert(rest.to_set().contains(last));
            assert(inp.to_set() =~= rest.to_set());
        } else if out.contains(last) {
            assert(o.contains(last));
            assert(inp.to_set().intersect(o) =~= rest.to_set().intersect(o).insert(last));
            assert(!rest.to_set().intersect(o).contains(last));
        } else {
            assert(!o.contains(last));
            assert(inp.to_set().intersect(o) =~= rest.to_set().intersect(o));
            assert(!rest.to_set().contains(last));
        }
    }
}

/// An accepted update keeps a key list free of duplicates: from a list in which no key
/// occurs twice, the new list has no key twice either.
pub proof fn lemma_update_keeps_keys_distinct(inp: Seq<Seq<u8>>, out: Seq<Seq<u8>>)
    requires
        keys_distinct(inp),
        spec_verify_key_list_update(inp, out) is Ok,
    ensures
        keys_distinct(out),
{
    broadcast use vstd::set::group_set_axioms, vstd::seq_lib::seq_to_set_is_finite;

    if inp.len() == out.len() + 1 {
        assert(inp.no_duplicates()) by {
            assert forall|i: int, j: int| 0 <= i < inp.len() && 0 <= j < inp.len() && i != j implies inp[i]
                != inp[j] by {
                if i < j {
                } else {
                }
            }
        }
        inp.unique_seq_to_set();
        lemma_distinct_removed_count(inp, out);
        assert(inp.to_set().intersect(out.to_set()) =~= out.to_set()) by {
            assert forall|k: Seq<u8>| out.to_set().contains(k) implies inp.to_set().contains(k) by {
                assert(out.contains(k));
            }
        }
        out.lemma_no_dup_set_cardinality();
        assert forall|i: int, j: int| 0 <= i < j < out.len() implies out[i] != out[j] by {
        }
    }
}

/// Whether every lock in `locks` is `refund_lock`.
pub open spec fn all_locks_are(locks: Seq<Seq<u8>>, refund_lock: Seq<u8>) -> bool {
    forall|i: int| 0 <= i < locks.len() ==> locks[i] == refund_lock
}

fn all_equal_to(locks: &Vec<Vec<u8>>, refund_lock: &[u8]) -> (r: bool)
    ensures
        r == all_locks_are(bytes_list_view(locks@), refund_lock@),
{
    let mut i: usize = 0;
    while i < locks.len()
        invariant
            i <= locks@.len(),
            forall|j: int| 0 <= j < i ==> #[trigger] locks@[j]@ == refund_lock@,
        decreases locks@.len() - i,
    {
        if !bytes_eq(locks[i].as_slice(), refund_lock) {
            assert(bytes_list_view(locks@)[i as int] != refund_lock@);
            return false;
        }
        i = i + 1;
    }
    true
}

/// Whether the cells of this type sit exactly at the expected indexes.
pub open spec fn cells_at(indexes: Seq<usize>, expected: Seq<usize>) -> bool {
    indexes == expected
}

fn indexes_equal(indexes: &Vec<usize>, expected: &[usize]) -> (r: bool)
    ensures
        r == cells_at(indexes@, expected@),
{
    if indexes.len() != expected.len() {
        return false;
    }
    let mut i: usize = 0;
    while i < indexes.len()
        invariant
            indexes@.len() == expected@.len(),
            i <= indexes@.len(),
            forall|j: int| 0 <= j < i ==> indexes@[j] == expected@[j],
        decreases indexes@.len() - i,
    {
        if indexes[i] != expected[i] {
            return false;
        }
        i = i + 1;
    }
    assert(indexes@ =~= expected@);
    true
}

/// The least capacity of a new device-key-list cell is strictly more than this, in
/// shannons (161 CKB).
pub const KEY_LIST_MIN_CAPACITY: u64 = 16_100_000_000;

/// The hash type byte of a script referenced by type.
pub const HASH_TYPE_TYPE: u8 = 1;

/// What checking a transaction that creates a device-key-list cell gives.
pub open spec fn spec_verify_create(
    input_indexes: Seq<usize>,
    output_indexes: Seq<usize>,
    keys: Seq<SpecDeviceKey>,
    lock_code_hash: Seq<u8>,
    lock_hash_type: u8,
    lock_args: Seq<u8>,
    das_lock_code_hash: Seq<u8>,
    capacity: u64,
    input_locks: Seq<Seq<u8>>,
    output_balance_locks: Seq<Seq<u8>>,
    refund_lock: Seq<u8>,
) -> Result<(), ErrorCode> {
    if !(cells_at(input_indexes, seq![]) && cells_at(output_indexes, seq![0usize])) {
        Err(ErrorCode::InvalidTransactionStructure)
    } else if keys.len() != 1 {
        Err(ErrorCode::WitnessArgsInvalid)
    } else if spec_verify_key_list_lock_arg(lock_args, keys[0]) is Err {
        spec_verify_key_list_lock_arg(lock_args, keys[0])
    } else if !(lock_hash_type == HASH_TYPE_TYPE && lock_code_hash == das_lock_code_hash) {
        Err(ErrorCode::MustUseDasLock)
    } else if !(capacity > KEY_LIST_MIN_CAPACITY) {
        Err(ErrorCode::CapacityNotEnough)
    } else if !(all_locks_are(input_locks, refund_lock) && all_locks_are(output_balance_locks, refund_lock)) {
        Err(ErrorCode::InconsistentBalanceCellLocks)
    } else {
        Ok(())
    }
}

/// Checks a transaction that creates a device-key-list cell: no such cell in the
/// inputs and one at output 0, holding exactly one key from which its das-lock
/// arguments are made, with more than 161 CKB, and every balance cell locked by the
/// refund lock. `input_locks` are the serialized locks of all inputs,
/// `output_balance_locks` those of the outputs that are not device-key-list cells.
pub fn verify_create_device_key_list(
    input_indexes: &Vec<usize>,
    output_indexes: &Vec<usize>,
    keys: &Vec<DeviceKey>,
    lock: &crate::types::Script,
    das_lock_code_hash: &[u8],
    capacity: u64,
    input_locks: &Vec<Vec<u8>>,
    output_balance_locks: &Vec<Vec<u8>>,
    refund_lock: &[u8],
) -> (r: Result<(), ErrorCode>)
    ensures
        r == spec_verify_create(
            input_indexes@,
            output_indexes@,
            keys@.map_values(|k: DeviceKey| k@),
            lock.code_hash@,
            lock.hash_type,
            lock.args@,
            das_lock_code_hash@,
            capacity,
            bytes_list_view(input_locks@),
            bytes_list_view(output_balance_locks@),
            refund_lock@,
        ),
{
    let no_index: [usize; 0] = [];
    let first_index: [usize; 1] = [0];
    if !(indexes_equal(input_indexes, &no_index) && indexes_equal(output_indexes, &first_index)) {
        assert(no_index@ =~= seq![]);
        assert(first_index@ =~= seq![0usize]);
        return Err(ErrorCode::InvalidTransactionStructure);
    }
    assert(no_index@ =~= seq![]);
    assert(first_index@ =~= seq![0usize]);
    if keys.len() != 1 {
        return Err(ErrorCode::WitnessArgsInvalid);
    }
    let checked = verify_key_list_lock_arg(lock.args.as_slice(), &keys[0]);
    if checked.is_err() {
        return checked;
    }
    if !(lock.hash_type == HASH_TYPE_TYPE && bytes_eq(lock.code_hash.as_slice(), das_lock_code_hash)) {
        return Err(ErrorCode::MustUseDasLock);
    }
    if !(capacity > KEY_LIST_MIN_CAPACITY) {
        return Err(ErrorCode::CapacityNotEnough);
    }
    if !(all_equal_to(input_locks, refund_lock) && all_equal_to(output_balance_locks, refund_lock)) {
        return Err(ErrorCode::InconsistentBalanceCellLocks);
    }
    Ok(())
}

/// The most that an update may take from the capacity of the cell, in shannons
/// (the change must stay under it).
pub const KEY_LIST_MAX_CAPACITY_REDUCE: i128 = 10000;

/// What checking a transaction that updates a device-key-list cell gives.
pub open spec fn spec_verify_update(
    input_indexes: Seq<usize>,
    output_indexes: Seq<usize>,
    input_capacity: u64,
    output_capacity: u64,
    input_lock: Seq<u8>,
    output_lock: Seq<u8>,
    input_keys: Seq<Seq<u8>>,
    output_keys: Seq<Seq<u8>>,
) -> Result<(), ErrorCode> {
    if !(cells_at(input_indexes, seq![0usize]) && cells_at(output_indexes, seq![0usize])) {
        Err(ErrorCode::InvalidTransactionStructure)
    } else if !(input_capacity - output_capacity < KEY_LIST_MAX_CAPACITY_REDUCE) {
        Err(ErrorCode::CapacityReduceTooMuch)
    } else if input_lock != output_lock {
        Err(ErrorCode::InvalidLock)
    } else {
        spec_verify_key_list_update(input_keys, output_keys)
    }
}

/// Checks a transaction that updates a device-key-list cell: one such cell at input 0
/// and at output 0, which loses less than 10000 shannons, keeps its lock, and whose
/// key list changes as `verify_key_list_update` says. A capacity above `i64::MAX`
/// makes the contract abort, so it is left out.
pub fn verify_update_device_key_list(
    input_indexes: &Vec<usize>,
    output_indexes: &Vec<usize>,
    input_capacity: u64,
    output_capacity: u64,
    input_lock: &[u8],
    output_lock: &[u8],
    input_keys: &Vec<Vec<u8>>,
    output_keys: &Vec<Vec<u8>>,
) -> (r: Result<(), ErrorCode>)
    requires
        input_indexes@ == seq![0usize] && output_indexes@ == seq![0usize] ==> input_capacity
            <= i64::MAX && output_capacity <= i64::MAX,
    ensures
        r == spec_verify_update(
            input_indexes@,
            output_indexes@,
            input_capacity,
            output_capacity,
            input_lock@,
            output_lock@,
            bytes_list_view(input_keys@),
            bytes_list_view(output_keys@),
        ),
{
    let first_index: [usize; 1] = [0];
    assert(first_index@ =~= seq![0usize]);
    if !(indexes_equal(input_indexes, &first_index) && indexes_equal(output_indexes, &first_index)) {
        return Err(ErrorCode::InvalidTransactionStructure);
    }
    let diff: i128 = input_capacity as i128 - output_capacity as i128;
    if !(diff < KEY_LIST_MAX_CAPACITY_REDUCE) {
        return Err(ErrorCode::CapacityReduceTooMuch);
    }
    if !bytes_eq(input_lock, output_lock) {
        return Err(ErrorCode::InvalidLock);
    }
    verify_key_list_update(input_keys, output_keys)
}

/// What checking a transaction that destroys a device-key-list cell gives.
pub open spec fn spec_verify_destroy(
    input_indexes: Seq<usize>,
    output_indexes: Seq<usize>,
    output_locks: Seq<Seq<u8>>,
    refund_lock: Seq<u8>,
) -> Result<(), ErrorCode> {
    if !(cells_at(input_indexes, seq![0usize]) && cells_at(output_indexes, seq![])) {
        Err(ErrorCode::InvalidTransactionStructure)
    } else if !all_locks_are(output_locks, refund_lock) {
        Err(ErrorCode::InconsistentBalanceCellLocks)
    } else {
        Ok(())
    }
}

/// Checks a transaction that destroys a device-key-list cell: one such cell at input
/// 0, none in the outputs, and every output locked by the refund lock.
pub fn verify_destroy_device_key_list(
    input_indexes: &Vec<usize>,
    output_indexes: &Vec<usize>,
    output_locks: &Vec<Vec<u8>>,
    refund_lock: &[u8],
) -> (r: Result<(), ErrorCode>)
    ensures
        r == spec_verify_destroy(input_indexes@, output_indexes@, bytes_list_view(output_locks@), refund_lock@),
{
    let no_index: [usize; 0] = [];
    let first_index: [usize; 1] = [0];
    assert(no_index@ =~= seq![]);
    assert(first_index@ =~= seq![0usize]);
    if !(indexes_equal(input_indexes, &first_index) && indexes_equal(output_indexes, &no_index)) {
        return Err(ErrorCode::InvalidTransactionStructure);
    }
    if !all_equal_to(output_locks, refund_lock) {
        return Err(ErrorCode::InconsistentBalanceCellLocks);
    }
    Ok(())
}

/// What dispatching an action leaves: the registered action names are taken from the
/// back until one equals `action`; the result is the names left and whether one matched.
pub open spec fn spec_dispatch(names: Seq<Seq<u8>>, action: Seq<u8>) -> (Seq<Seq<u8>>, bool)
    decreases names.len(),
{
    if names.len() == 0 {
        (names, false)
    } else if names.last() == action {
        (names.drop_last(), true)
    } else {
        spec_dispatch(names.drop_last(), action)
    }
}

/// Takes registered action names from the back until one equals the action of the
/// transaction, and returns that one, or `None` when no name matched (all are gone).
pub fn dispatch(registered: &mut Vec<Vec<u8>>, action: &[u8]) -> (r: Option<Vec<u8>>)
    ensures
        bytes_list_view(final(registered)@) == spec_dispatch(bytes_list_view(old(registered)@), action@).0,
        r is Some == spec_dispatch(bytes_list_view(old(registered)@), action@).1,
        r matches Some(name) ==> name@ == action@,
{
    let ghost orig = bytes_list_view(old(registered)@);
    while registered.len() > 0
        invariant
            orig == bytes_list_view(old(registered)@),
            spec_dispatch(bytes_list_view(registered@), action@) == spec_dispatch(orig, action@),
        decreases registered@.len(),
    {
        let ghost before = bytes_list_view(registered@);
        let name = registered.pop().unwrap();
        proof {
            assert(bytes_list_view(registered@) =~= before.drop_last());
            assert(before.last() == name@);
        }
        if bytes_eq(name.as_slice(), action) {
            assert(spec_dispatch(before, action@) == (bytes_list_view(registered@), true));
            return Some(name);
        }
    }
    assert(bytes_list_view(registered@) =~= Seq::<Seq<u8>>::empty());
    None
}

/// A named check of a transaction: a description and the check itself.
pub struct Rule<T> {
    desc: String,
    verification: T,
}

impl<T> Rule<T> {
    /// The description of the rule.
    pub closed spec fn spec_desc(&self) -> Seq<char> {
        self.desc@
    }

    /// The check of the rule.
    pub closed spec fn spec_verification(&self) -> T {
        self.verification
    }

    /// A rule with a description and a check.
    pub fn new(desc: String, verification: T) -> (r: Self)
        ensures
            r.spec_desc() == desc@,
            r.spec_verification() == verification,
    {
        Rule { desc, verification }
    }

    /// The description of the rule.
    pub fn desc(&self) -> (r: &str)
        ensures
            r@ == self.spec_desc(),
    {
        self.desc.as_str()
    }

    /// Runs the check of the rule on a transaction and returns what it returns.
    pub fn verify<C, E>(&self, contract: C) -> (r: Result<(), E>)
        where
            T: Fn(C) -> Result<(), E>,
        requires
            self.spec_verification().requires((contract,)),
        ensures
            self.spec_verification().ensures((contract,), r),
    {
        (self.verification)(contract)
    }
}

} // verus!

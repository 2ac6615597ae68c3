//! The fixed-capacity record that carries package owners to the kernel.

use vstd::prelude::*;
use vstd::utf8::encode_utf8;

verus! {

/// Width in bytes of the name field of one entry.
pub const KSU_MAX_PACKAGE_NAME: usize = 256;

/// Number of entries that one record can carry.
pub const KSU_MAX_UID_ENTRIES: usize = 4096;

/// The name field that stands for `name`: as many leading bytes of the name
/// as leave room for one terminator, then zeros up to the field's width.
pub open spec fn name_field(name: Seq<u8>) -> Seq<u8> {
    Seq::new(
        KSU_MAX_PACKAGE_NAME as nat,
        |i: int|
            if i < name.len() && i < KSU_MAX_PACKAGE_NAME - 1 {
                name[i]
            } else {
                0u8
            },
    )
}

/// `n` zero bytes.
pub open spec fn zeros(n: nat) -> Seq<u8> {
    Seq::new(n, |i: int| 0u8)
}

/// The name field is as wide as every other and ends in a zero byte. A name
/// that fills the width or more is cut to the width less one and followed by
/// one zero; a shorter name stands whole and is followed by zeros.
pub proof fn lemma_name_field_shape(name: Seq<u8>)
    ensures
        name_field(name).len() == KSU_MAX_PACKAGE_NAME,
        name_field(name)[KSU_MAX_PACKAGE_NAME - 1] == 0u8,
        name.len() >= KSU_MAX_PACKAGE_NAME ==> name_field(name) == name.take(
            KSU_MAX_PACKAGE_NAME - 1,
        ) + zeros(1),
        name.len() < KSU_MAX_PACKAGE_NAME ==> name_field(name) == name + zeros(
            (KSU_MAX_PACKAGE_NAME - name.len()) as nat,
        ),
{
    if name.len() >= KSU_MAX_PACKAGE_NAME {
        assert(name_field(name) =~= name.take(KSU_MAX_PACKAGE_NAME - 1) + zeros(1));
    } else {
        assert(name_field(name) =~= name + zeros((KSU_MAX_PACKAGE_NAME - name.len()) as nat));
    }
}

/// One slot of the record: an owner and the name field of its package.
#[derive(Clone, Copy, Debug)]
pub struct UidPackageEntry {
    pub uid: u32,
    pub package: [u8; KSU_MAX_PACKAGE_NAME],
}

impl UidPackageEntry {
    /// The slot as plain values: the owner and the bytes of the name field.
    pub open spec fn view(&self) -> (u32, Seq<u8>) {
        (self.uid, self.package@)
    }

    /// Builds the entry for `package`, owned by `uid`. A name that does not
    /// fit is cut to the field's width less one; the rest of the field is zero.
    pub fn new(uid: u32, package: &str) -> (entry: Self)
        ensures
            entry@ == (uid, name_field(encode_utf8(package@))),
    {
        let mut field = [0u8; KSU_MAX_PACKAGE_NAME];
        let bytes = package.as_bytes();
        let copy_len: usize = if bytes.len() < KSU_MAX_PACKAGE_NAME - 1 {
            bytes.len()
        } else {
            KSU_MAX_PACKAGE_NAME - 1
        };
        let mut i: usize = 0;
        while i < copy_len
            invariant
                i <= copy_len,
                copy_len <= bytes@.len(),
                copy_len <= KSU_MAX_PACKAGE_NAME - 1,
                bytes@ == encode_utf8(package@),
                forall|k: int| 0 <= k < i ==> field@[k] == bytes@[k],
                forall|k: int| i <= k < KSU_MAX_PACKAGE_NAME ==> field@[k] == 0u8,
            decreases copy_len - i,
        {
            field[i] = bytes[i];
            i += 1;
        }
        assert(field@ =~= name_field(encode_utf8(package@)));
        UidPackageEntry { uid, package: field }
    }
}

/// A name field that ends in a zero byte, so that whoever reads it as a
/// string finds the end within the field.
pub open spec fn terminated(field: Seq<u8>) -> bool {
    field.len() == KSU_MAX_PACKAGE_NAME && field[KSU_MAX_PACKAGE_NAME - 1] == 0u8
}

/// What an unused slot of the record holds: owner zero and a name field of
/// zeros only.
pub open spec fn empty_slot() -> (u32, Seq<u8>) {
    (0u32, name_field(Seq::<u8>::empty()))
}

/// What slot `index` of a record with the entries `entries` holds.
pub open spec fn slot_of(entries: Seq<(u32, Seq<u8>)>, index: int) -> (u32, Seq<u8>) {
    if 0 <= index < entries.len() {
        entries[index]
    } else {
        empty_slot()
    }
}

/// A record of at most `KSU_MAX_UID_ENTRIES` entries, in the order in which
/// they were added.
#[derive(Debug)]
pub struct UserspaceUidData {
    entries: Vec<UidPackageEntry>,
}

impl UserspaceUidData {
    #[verifier::type_invariant]
    spec fn within_capacity(self) -> bool {
        &&& self.entries@.len() <= KSU_MAX_UID_ENTRIES
        &&& forall|i: int|
            0 <= i < self.entries@.len() ==> terminated((#[trigger] self.entries@[i]).package@)
    }

    /// The entries held, oldest first.
    pub closed spec fn view(&self) -> Seq<(u32, Seq<u8>)> {
        self.entries@.map_values(|e: UidPackageEntry| e@)
    }

    /// A record without entries.
    pub fn new() -> (record: Self)
        ensures
            record@ == Seq::<(u32, Seq<u8>)>::empty(),
    {
        let record = UserspaceUidData { entries: Vec::new() };
        assert(record@ =~= Seq::<(u32, Seq<u8>)>::empty());
        record
    }

    /// Appends the entry for `package` while there is room. A full record is
    /// left as it is, and the answer is `false`.
    pub fn add_entry(&mut self, uid: u32, package: &str) -> (added: bool)
        ensures
            added == (old(self)@.len() < KSU_MAX_UID_ENTRIES),
            added ==> final(self)@ == old(self)@.push((uid, name_field(encode_utf8(package@)))),
            !added ==> final(self)@ == old(self)@,
    {
        proof {
            use_type_invariant(&*self);
        }
        if self.entries.len() >= KSU_MAX_UID_ENTRIES {
            return false;
        }
        let entry = UidPackageEntry::new(uid, package);
        let mut taken = UserspaceUidData { entries: Vec::new() };
        core::mem::swap(self, &mut taken);
        let UserspaceUidData { entries } = taken;
        let mut entries = entries;
        entries.push(entry);
        *self = UserspaceUidData { entries };
        assert(self@ =~= old(self)@.push((uid, name_field(encode_utf8(package@)))));
        true
    }

    /// The number of entries held, which never exceeds the capacity.
    pub fn count(&self) -> (n: u32)
        ensures
            n == self@.len(),
            n <= KSU_MAX_UID_ENTRIES,
    {
        proof {
            use_type_invariant(self);
        }
        self.entries.len() as u32
    }

    /// The content of slot `index` of the fixed-size buffer: the entry added
    /// at that position, or the empty slot where none was. Either way its
    /// name field ends in a zero byte.
    pub fn slot(&self, index: usize) -> (entry: UidPackageEntry)
        ensures
            entry@ == slot_of(self@, index as int),
            terminated(entry@.1),
    {
        proof {
            use_type_invariant(self);
        }
        if index < self.entries.len() {
            self.entries[index]
        } else {
            let entry = UidPackageEntry { uid: 0, package: [0u8; KSU_MAX_PACKAGE_NAME] };
            assert(entry.package@ =~= name_field(Seq::<u8>::empty()));
            entry
        }
    }
}

} // verus!

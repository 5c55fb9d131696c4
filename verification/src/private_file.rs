//! Which files may hold secrets.

use vstd::prelude::*;

verus! {

/// What is known of an open file.
pub struct FileFacts {
    pub is_file: bool,
    pub length: u64,
    pub links: u64,
    pub mode: u32,
    pub owner: u32,
}

/// What is known of a directory.
pub struct DirectoryFacts {
    pub is_directory: bool,
    pub is_symlink: bool,
    pub mode: u32,
    pub owner: u32,
}

/// Why a file is not read.
#[derive(Clone, Copy, Debug, PartialEq, Eq, Structural)]
pub enum PrivateFault {
    /// It is no regular file, or too long.
    Shape,
    /// Others can reach it: its owner, its mode or its links are unsafe.
    Access,
}

/// The bits of a mode for the group and for everyone else.
pub open spec fn shared_bits(mode: u32) -> int {
    mode as int % 64
}

/// The group or everyone else may write.
pub open spec fn others_write(mode: u32) -> bool {
    (mode as int / 2) % 2 == 1 || (mode as int / 16) % 2 == 1
}

/// Why a file that should hold secrets is not read: it must be a regular file of
/// bounded size, reached by one name, open to its owner alone, who is the user
/// or the superuser.
pub open spec fn private_fault(facts: FileFacts, limit: u64, user: u32) -> Option<PrivateFault> {
    if !facts.is_file || facts.length > limit {
        Some(PrivateFault::Shape)
    } else if facts.links != 1 || shared_bits(facts.mode) != 0 || (facts.owner != user
        && facts.owner != 0) {
        Some(PrivateFault::Access)
    } else {
        None
    }
}

pub fn check_private_file(facts: &FileFacts, limit: u64, user: u32) -> (r: Result<(), PrivateFault>)
    ensures
        match private_fault(*facts, limit, user) {
            None => r == Ok::<(), PrivateFault>(()),
            Some(fault) => r == Err::<(), PrivateFault>(fault),
        },
{
    if !facts.is_file || facts.length > limit {
        return Err(PrivateFault::Shape);
    }
    if facts.links != 1 || facts.mode % 64 != 0 || (facts.owner != user && facts.owner != 0) {
        return Err(PrivateFault::Access);
    }
    Ok(())
}

/// Files with secrets are kept in a directory that nobody else can write to,
/// owned by the user or the superuser.
pub open spec fn is_trusted_directory(facts: DirectoryFacts, user: u32) -> bool {
    &&& facts.is_directory
    &&& !facts.is_symlink
    &&& !others_write(facts.mode)
    &&& facts.owner == user || facts.owner == 0
}

pub fn trusted_directory(facts: &DirectoryFacts, user: u32) -> (r: bool)
    ensures
        r == is_trusted_directory(*facts, user),
{
    facts.is_directory && !facts.is_symlink && (facts.mode / 2) % 2 != 1 && (facts.mode / 16) % 2
        != 1 && (facts.owner == user || facts.owner == 0)
}

/// Why a directory gets no file with secrets.
#[derive(Clone, Copy, Debug, PartialEq, Eq, Structural)]
pub enum DirectoryFault {
    /// It is no directory, or reached through a link.
    Shape,
    /// Others can write to it.
    Writable,
}

pub open spec fn directory_fault(facts: DirectoryFacts) -> Option<DirectoryFault> {
    if facts.is_symlink || !facts.is_directory {
        Some(DirectoryFault::Shape)
    } else if others_write(facts.mode) {
        Some(DirectoryFault::Writable)
    } else {
        None
    }
}

/// Checks the directory that a file with secrets is to be written to.
pub fn check_config_directory(facts: &DirectoryFacts) -> (r: Result<(), DirectoryFault>)
    ensures
        match directory_fault(*facts) {
            None => r == Ok::<(), DirectoryFault>(()),
            Some(fault) => r == Err::<(), DirectoryFault>(fault),
        },
{
    if facts.is_symlink || !facts.is_directory {
        return Err(DirectoryFault::Shape);
    }
    if (facts.mode / 2) % 2 == 1 || (facts.mode / 16) % 2 == 1 {
        return Err(DirectoryFault::Writable);
    }
    Ok(())
}

/// Who an access list speaks of.
#[derive(Clone, Copy, Debug, PartialEq, Eq, Structural)]
pub enum Principal {
    /// The user that the program runs as.
    CurrentUser,
    /// The system or its administrators.
    System,
    /// The owner of the file, by name.
    Owner,
    /// The owner of the file, whoever that is.
    OwnerRights,
    Other,
}

/// An entry of an access list.
#[derive(Clone, Copy, Debug, PartialEq, Eq, Structural)]
pub struct AclEntry {
    /// It only concerns what is made inside.
    pub inherit_only: bool,
    /// Zero allows, one denies.
    pub kind: u8,
    pub size: u16,
    pub principal: Principal,
}

/// The bytes that an entry which allows has at least.
pub const MIN_ALLOW_ENTRY_BYTES: u16 = 12;

/// What is known of a file whose access is governed by a list.
pub struct AclFacts {
    pub links: u32,
    /// The owner, if there is one.
    pub owner: Option<Principal>,
    /// The entries, if there is a list. Without one everybody has access.
    pub entries: Option<Vec<AclEntry>>,
}

/// Why a file under an access list is not read.
#[derive(Clone, Copy, Debug, PartialEq, Eq, Structural)]
pub enum AclFault {
    HardLinks,
    Unrestricted,
    Owner,
    Unsupported,
    Shared,
}

impl AclEntry {
    /// The entry grants nothing on this file.
    pub open spec fn is_idle(self) -> bool {
        self.inherit_only || self.kind == 1
    }

    pub open spec fn fault(self) -> Option<AclFault> {
        if self.is_idle() {
            None
        } else if self.kind != 0 || self.size < MIN_ALLOW_ENTRY_BYTES {
            Some(AclFault::Unsupported)
        } else if self.principal == Principal::Other {
            Some(AclFault::Shared)
        } else {
            None
        }
    }

    fn check(&self) -> (r: Option<AclFault>)
        ensures
            r == self.fault(),
    {
        if self.inherit_only || self.kind == 1 {
            return None;
        }
        if self.kind != 0 || self.size < MIN_ALLOW_ENTRY_BYTES {
            return Some(AclFault::Unsupported);
        }
        match self.principal {
            Principal::Other => Some(AclFault::Shared),
            _ => None,
        }
    }
}

/// The first fault among the entries from `k` on.
pub open spec fn entries_fault(entries: Seq<AclEntry>, k: int) -> Option<AclFault>
    decreases entries.len() - k,
{
    if k < 0 || k >= entries.len() {
        None
    } else if entries[k].fault() is Some {
        entries[k].fault()
    } else {
        entries_fault(entries, k + 1)
    }
}

/// Why a file with secrets under an access list is not read: it is reached by one
/// name, owned by the user or the system, and open to nobody but these and its
/// owner.
pub open spec fn acl_fault(facts: AclFacts) -> Option<AclFault> {
    if facts.links != 1 {
        Some(AclFault::HardLinks)
    } else if facts.owner is None || facts.entries is None {
        Some(AclFault::Unrestricted)
    } else if facts.owner->0 != Principal::CurrentUser && facts.owner->0 != Principal::System {
        Some(AclFault::Owner)
    } else {
        entries_fault(facts.entries->0@, 0)
    }
}

#[verifier::loop_isolation(false)]
pub fn check_acl(facts: &AclFacts) -> (r: Result<(), AclFault>)
    ensures
        match acl_fault(*facts) {
            None => r == Ok::<(), AclFault>(()),
            Some(fault) => r == Err::<(), AclFault>(fault),
        },
{
    if facts.links != 1 {
        return Err(AclFault::HardLinks);
    }
    match (&facts.owner, &facts.entries) {
        (Some(owner), Some(entries)) => {
            match owner {
                Principal::CurrentUser => {},
                Principal::System => {},
                _ => {
                    return Err(AclFault::Owner);
                },
            }
            let mut k: usize = 0;
            while k < entries.len()
                invariant
                    k <= entries@.len(),
                    entries_fault(entries@, 0) == entries_fault(entries@, k as int),
                decreases entries@.len() - k,
            {
                if let Some(fault) = entries[k].check() {
                    return Err(fault);
                }
                k += 1;
            }
            Ok(())
        },
        _ => Err(AclFault::Unrestricted),
    }
}

/// A file that is read grants nothing to strangers.
pub proof fn an_accepted_list_grants_nothing_to_strangers(facts: AclFacts, i: int)
    requires
        acl_fault(facts) is None,
        0 <= i < facts.entries->0@.len(),
    ensures
        facts.entries->0@[i].is_idle() || facts.entries->0@[i].principal != Principal::Other,
{
    every_entry_is_accepted(facts.entries->0@, 0, i);
}

proof fn every_entry_is_accepted(entries: Seq<AclEntry>, k: int, i: int)
    requires
        entries_fault(entries, k) is None,
        0 <= k <= i < entries.len(),
    ensures
        entries[i].fault() is None,
    decreases i - k,
{
    if k < i {
        every_entry_is_accepted(entries, k + 1, i);
    }
}

} // verus!

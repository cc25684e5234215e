use vstd::prelude::*;

verus! {

/// A key or keyring permission bitmask: possessor/user/group/other groups of
/// view/read/write/search/link/setattr bits. The mask is opaque to this layer:
/// it is passed to the kernel on write and returned verbatim on read.
pub type KeyPermissions = u32;

/// The reserved serial numbers that name process-relative keyrings. The kernel
/// resolves them lazily at call time; this layer only forwards them.
#[derive(Debug, Clone, Copy, PartialEq, Eq, Structural, Hash)]
pub enum SpecialKeyring {
    Thread,
    Process,
    Session,
    User,
    UserSession,
    Group,
    ReqKeyAuthKey,
}

impl SpecialKeyring {
    /// The reserved serial value that stands for this keyring.
    pub open spec fn spec_serial(&self) -> i32 {
        match *self {
            SpecialKeyring::Thread => -1i32,
            SpecialKeyring::Process => -2i32,
            SpecialKeyring::Session => -3i32,
            SpecialKeyring::User => -4i32,
            SpecialKeyring::UserSession => -5i32,
            SpecialKeyring::Group => -6i32,
            SpecialKeyring::ReqKeyAuthKey => -7i32,
        }
    }

    /// The reserved serial value that stands for this keyring.
    pub fn serial(&self) -> (r: i32)
        ensures
            r == self.spec_serial(),
    {
        match *self {
            SpecialKeyring::Thread => -1,
            SpecialKeyring::Process => -2,
            SpecialKeyring::Session => -3,
            SpecialKeyring::User => -4,
            SpecialKeyring::UserSession => -5,
            SpecialKeyring::Group => -6,
            SpecialKeyring::ReqKeyAuthKey => -7,
        }
    }
}

/// The kinds of implicit keyring that a thread's default key requests can
/// resolve against.
#[derive(Debug, Clone, Copy, PartialEq, Eq, Structural, Hash)]
pub enum DefaultKeyring {
    NoChange,
    Default,
    Thread,
    Process,
    Session,
    User,
    UserSession,
    Group,
}

impl DefaultKeyring {
    /// The numeric value the kernel uses for this kind.
    pub open spec fn spec_serial(&self) -> i32 {
        match *self {
            DefaultKeyring::NoChange => -1i32,
            DefaultKeyring::Default => 0i32,
            DefaultKeyring::Thread => 1i32,
            DefaultKeyring::Process => 2i32,
            DefaultKeyring::Session => 3i32,
            DefaultKeyring::User => 4i32,
            DefaultKeyring::UserSession => 5i32,
            DefaultKeyring::Group => 6i32,
        }
    }

    /// The kind a kernel-returned numeric value stands for, or `None` for a
    /// value outside the known set (an internal-contract violation: the
    /// caller decides whether to abort or to surface it).
    pub open spec fn spec_from_serial(v: i32) -> Option<DefaultKeyring> {
        if v == -1 {
            Some(DefaultKeyring::NoChange)
        } else if v == 0 {
            Some(DefaultKeyring::Default)
        } else if v == 1 {
            Some(DefaultKeyring::Thread)
        } else if v == 2 {
            Some(DefaultKeyring::Process)
        } else if v == 3 {
            Some(DefaultKeyring::Session)
        } else if v == 4 {
            Some(DefaultKeyring::User)
        } else if v == 5 {
            Some(DefaultKeyring::UserSession)
        } else if v == 6 {
            Some(DefaultKeyring::Group)
        } else {
            None
        }
    }

    /// The numeric value the kernel uses for this kind.
    pub fn serial(&self) -> (r: i32)
        ensures
            r == self.spec_serial(),
    {
        match *self {
            DefaultKeyring::NoChange => -1,
            DefaultKeyring::Default => 0,
            DefaultKeyring::Thread => 1,
            DefaultKeyring::Process => 2,
            DefaultKeyring::Session => 3,
            DefaultKeyring::User => 4,
            DefaultKeyring::UserSession => 5,
            DefaultKeyring::Group => 6,
        }
    }

    /// Maps a kernel-returned numeric kind back to the abstract kind value.
    pub fn from_serial(v: i32) -> (r: Option<DefaultKeyring>)
        ensures
            r == DefaultKeyring::spec_from_serial(v),
    {
        if v == -1 {
            Some(DefaultKeyring::NoChange)
        } else if v == 0 {
            Some(DefaultKeyring::Default)
        } else if v == 1 {
            Some(DefaultKeyring::Thread)
        } else if v == 2 {
            Some(DefaultKeyring::Process)
        } else if v == 3 {
            Some(DefaultKeyring::Session)
        } else if v == 4 {
            Some(DefaultKeyring::User)
        } else if v == 5 {
            Some(DefaultKeyring::UserSession)
        } else if v == 6 {
            Some(DefaultKeyring::Group)
        } else {
            None
        }
    }
}

/// The two numeric encodings of a default-keyring kind are inverse to each
/// other: decoding the value a kind is sent as always recovers that kind.
pub proof fn lemma_default_keyring_roundtrip(k: DefaultKeyring)
    ensures
        DefaultKeyring::spec_from_serial(k.spec_serial()) == Some(k),
{
}

} // verus!

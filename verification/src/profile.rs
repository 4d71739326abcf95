//! Boot profiles: the volumes that carry a profile marker, a cache of
//! extracted plugins, or both.

use vstd::prelude::*;
use vstd::string::*;
use crate::text::{all_ascii, ascii_text, u8_to_ascii};

verus! {

/// Directory of a profile, below the mount point of its volume.
pub const PROFILE_PATH: &'static str = "Edgeless";

/// File below the profile directory whose presence marks a boot profile, and
/// which holds its version.
pub const PROFILE_VERSION_FILE: &'static str = "version.txt";

/// Directory below the profile directory whose presence marks a plugin cache.
pub const PROFILE_BOOSTREPO_DIR: &'static str = "BoostRepo";

/// Directory below the profile directory that holds the plugin archives.
pub const PATH_PLUGIN_RESOURCES: &'static str = "Resource";

/// What a volume carries.
#[derive(Debug, Clone, Copy, PartialEq, Eq, Structural)]
pub enum ProfileType {
    /// A boot profile without a plugin cache.
    Default,
    /// A plugin cache, found by its own marker.
    BoostRepo,
    /// A boot profile that also carries a plugin cache.
    All,
}

/// The kind of storage behind a volume.
#[derive(Debug, Clone, Copy, PartialEq, Eq, Structural)]
pub enum DiskKind {
    HDD,
    SSD,
    Unknown(isize),
}

/// What the volume enumerator says of one mounted volume.
#[derive(Debug, Clone)]
pub struct DiskInfo {
    pub mount_point: String,
    pub name: String,
    pub disk_type: DiskKind,
    pub removable: bool,
    /// Name of the file system, as raw bytes.
    pub file_system: Vec<u8>,
    /// The profile directory on this volume.
    pub profile_path: String,
    /// Whether the volume carries the profile marker.
    pub has_profile: bool,
    /// Whether the volume carries the cache marker.
    pub has_boostrepo: bool,
    /// What the version file holds, where it could be read.
    pub version_text: Option<String>,
}

/// One profile found on a mounted volume.
#[derive(Debug, Clone)]
pub struct ProfileEntry {
    pub version_text: String,
    pub path: String,
    pub mountpoint: String,
    pub name: String,
    pub disk_type: DiskKind,
    pub removable: bool,
    pub fs: String,
    pub profile_type: ProfileType,
}

/// The mathematical value of a profile.
pub struct ProfileView {
    pub version_text: Seq<char>,
    pub path: Seq<char>,
    pub mountpoint: Seq<char>,
    pub name: Seq<char>,
    pub disk_type: DiskKind,
    pub removable: bool,
    pub fs: Seq<char>,
    pub profile_type: ProfileType,
}

impl View for ProfileEntry {
    type V = ProfileView;

    open spec fn view(&self) -> ProfileView {
        ProfileView {
            version_text: self.version_text@,
            path: self.path@,
            mountpoint: self.mountpoint@,
            name: self.name@,
            disk_type: self.disk_type,
            removable: self.removable,
            fs: self.fs@,
            profile_type: self.profile_type,
        }
    }
}

/// The views of a list of profiles.
pub open spec fn profile_views(profiles: Seq<ProfileEntry>) -> Seq<ProfileView> {
    Seq::new(profiles.len(), |i: int| profiles[i]@)
}

/// The name that stands for a file system whose name is no ASCII text.
pub open spec fn unknown_fs() -> Seq<char> {
    seq!['U', 'N', 'K', 'N', 'O', 'W', 'N']
}

/// The name of a file system: its bytes read as ASCII, or `UNKNOWN`.
pub open spec fn fs_name(bytes: Seq<u8>) -> Seq<char> {
    if all_ascii(bytes) {
        ascii_text(bytes)
    } else {
        unknown_fs()
    }
}

/// The boot profile on a volume that carries the profile marker.
pub open spec fn boot_profile_of(disk: DiskInfo) -> ProfileView {
    ProfileView {
        version_text: match disk.version_text {
            Some(t) => t@,
            None => Seq::<char>::empty(),
        },
        path: disk.profile_path@,
        mountpoint: disk.mount_point@,
        name: disk.name@,
        disk_type: disk.disk_type,
        removable: disk.removable,
        fs: fs_name(disk.file_system@),
        profile_type: if disk.has_boostrepo {
            ProfileType::All
        } else {
            ProfileType::Default
        },
    }
}

/// The repository profile on a volume that carries the cache marker.
pub open spec fn repo_profile_of(disk: DiskInfo) -> ProfileView {
    ProfileView {
        version_text: Seq::<char>::empty(),
        path: disk.profile_path@,
        mountpoint: disk.mount_point@,
        name: disk.name@,
        disk_type: disk.disk_type,
        removable: disk.removable,
        fs: fs_name(disk.file_system@),
        profile_type: ProfileType::BoostRepo,
    }
}

/// The boot profiles on the first `n` volumes, in order.
pub open spec fn boot_profiles(disks: Seq<DiskInfo>, n: nat) -> Seq<ProfileView>
    decreases n,
{
    if n == 0 || n > disks.len() {
        Seq::<ProfileView>::empty()
    } else if disks[n - 1].has_profile {
        boot_profiles(disks, (n - 1) as nat).push(boot_profile_of(disks[n - 1]))
    } else {
        boot_profiles(disks, (n - 1) as nat)
    }
}

/// The repository profiles on the first `n` volumes, in order.
pub open spec fn repo_profiles(disks: Seq<DiskInfo>, n: nat) -> Seq<ProfileView>
    decreases n,
{
    if n == 0 || n > disks.len() {
        Seq::<ProfileView>::empty()
    } else if disks[n - 1].has_boostrepo {
        repo_profiles(disks, (n - 1) as nat).push(repo_profile_of(disks[n - 1]))
    } else {
        repo_profiles(disks, (n - 1) as nat)
    }
}

/// Reads the name of a file system.
pub fn read_fs_name(bytes: &Vec<u8>) -> (name: String)
    ensures
        name@ == fs_name(bytes@),
{
    match u8_to_ascii(bytes.as_slice()) {
        Ok(name) => name,
        Err(e) => {
            proof {
                reveal_strlit("UNKNOWN");
                assert("UNKNOWN"@ =~= unknown_fs());
                assert(bytes@.take(e.index as int + 1)[e.index as int] == bytes@[e.index as int]);
            }
            "UNKNOWN".to_owned()
        },
    }
}

impl ProfileEntry {
    /// A copy of this profile.
    pub fn duplicate(&self) -> (copy: ProfileEntry)
        ensures
            copy == *self,
    {
        ProfileEntry {
            version_text: self.version_text.clone(),
            path: self.path.clone(),
            mountpoint: self.mountpoint.clone(),
            name: self.name.clone(),
            disk_type: self.disk_type,
            removable: self.removable,
            fs: self.fs.clone(),
            profile_type: self.profile_type,
        }
    }

    /// The boot profile on the last volume that carries one.
    pub fn find_last(disks: &Vec<DiskInfo>) -> (last: Option<ProfileEntry>)
        ensures
            match last {
                Some(p) => boot_profiles(disks@, disks@.len()).len() > 0 && p@ == boot_profiles(
                    disks@,
                    disks@.len(),
                ).last(),
                None => boot_profiles(disks@, disks@.len()).len() == 0,
            },
    {
        let mut all = Self::find(disks);
        let ghost before = all@;
        let found = all.pop();
        proof {
            if before.len() > 0 {
                assert(profile_views(before).last() == before.last()@);
            }
        }
        found
    }

    /// The boot profiles on the given volumes: one for each volume that
    /// carries the profile marker, in order. A profile on a volume that also
    /// carries the cache marker is of type `All`.
    pub fn find(disks: &Vec<DiskInfo>) -> (profiles: Vec<ProfileEntry>)
        ensures
            profile_views(profiles@) == boot_profiles(disks@, disks@.len()),
    {
        let mut profiles: Vec<ProfileEntry> = Vec::new();
        let n: usize = disks.len();
        let mut i: usize = 0;
        assert(profile_views(profiles@) =~= Seq::<ProfileView>::empty());
        while i < n
            invariant
                n == disks@.len(),
                i <= n,
                profile_views(profiles@) == boot_profiles(disks@, i as nat),
            decreases n - i,
        {
            let disk = &disks[i];
            if disk.has_profile {
                let version_text = match &disk.version_text {
                    Some(t) => t.clone(),
                    None => String::new(),
                };
                let profile = ProfileEntry {
                    path: disk.profile_path.clone(),
                    version_text,
                    mountpoint: disk.mount_point.clone(),
                    name: disk.name.clone(),
                    disk_type: disk.disk_type,
                    removable: disk.removable,
                    profile_type: if disk.has_boostrepo {
                        ProfileType::All
                    } else {
                        ProfileType::Default
                    },
                    fs: read_fs_name(&disk.file_system),
                };
                let ghost before = profiles@;
                profiles.push(profile);
                assert(profile_views(profiles@) =~= profile_views(before).push(
                    boot_profile_of(*disk),
                ));
            }
            i = i + 1;
        }
        profiles
    }

    /// The repository profiles on the given volumes: one for each volume that
    /// carries the cache marker, in order.
    pub fn find_boostrepo(disks: &Vec<DiskInfo>) -> (profiles: Vec<ProfileEntry>)
        ensures
            profile_views(profiles@) == repo_profiles(disks@, disks@.len()),
    {
        let mut profiles: Vec<ProfileEntry> = Vec::new();
        let n: usize = disks.len();
        let mut i: usize = 0;
        assert(profile_views(profiles@) =~= Seq::<ProfileView>::empty());
        while i < n
            invariant
                n == disks@.len(),
                i <= n,
                profile_views(profiles@) == repo_profiles(disks@, i as nat),
            decreases n - i,
        {
            let disk = &disks[i];
            if disk.has_boostrepo {
                let profile = ProfileEntry {
                    path: disk.profile_path.clone(),
                    version_text: String::new(),
                    mountpoint: disk.mount_point.clone(),
                    name: disk.name.clone(),
                    disk_type: disk.disk_type,
                    removable: disk.removable,
                    profile_type: ProfileType::BoostRepo,
                    fs: read_fs_name(&disk.file_system),
                };
                let ghost before = profiles@;
                profiles.push(profile);
                assert(profile_views(profiles@) =~= profile_views(before).push(
                    repo_profile_of(*disk),
                ));
            }
            i = i + 1;
        }
        profiles
    }
}

} // verus!

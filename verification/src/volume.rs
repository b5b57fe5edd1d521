//! Volumes: directories of the host that outlive containers.
use vstd::prelude::*;
use vstd::string::*;

use crate::keymap::{order_lists_the_keys, Duplicate, KeyMap, NameMap};
use crate::paths::{
    is_entry_name, is_within, join, joined, joined_path_has_a_parent, parent, parent_of,
    parent_undoes_join, within,
};
use crate::removal::{begun, Pruning, Removal};
use crate::state::{all_texts, texts_of_items, Json};
use crate::text::{digits_value, is_digit};

verus! {

/// Where volumes are kept.
pub const VOLUME_ROOT: &'static str = "/var/lib/rkl/volumes";

/// The name, below that directory, of the file that lists the volumes.
pub const METADATA_FILE: &'static str = "metadata.json";

pub struct VolumeMetadata {
    pub name: String,
    pub driver: String,
    pub mountpoint: String,
    pub created_at: String,
    pub labels: NameMap<String>,
    pub options: NameMap<String>,
    /// "local" or "global".
    pub scope: String,
    pub status: NameMap<String>,
}

/// What a `VolumeMetadata` stands for.
#[verifier::ext_equal]
pub struct VolumeView {
    pub name: Seq<char>,
    pub driver: Seq<char>,
    pub mountpoint: Seq<char>,
    pub created_at: Seq<char>,
    pub labels: Map<Seq<char>, Seq<char>>,
    pub options: Map<Seq<char>, Seq<char>>,
    pub scope: Seq<char>,
    pub status: Map<Seq<char>, Seq<char>>,
}

impl DeepView for VolumeMetadata {
    type V = VolumeView;

    open spec fn deep_view(&self) -> VolumeView {
        VolumeView {
            name: self.name@,
            driver: self.driver@,
            mountpoint: self.mountpoint@,
            created_at: self.created_at@,
            labels: self.labels@,
            options: self.options@,
            scope: self.scope@,
            status: self.status@,
        }
    }
}

impl Duplicate for VolumeMetadata {
    fn duplicate(&self) -> (r: Self) {
        VolumeMetadata {
            name: self.name.clone(),
            driver: self.driver.clone(),
            mountpoint: self.mountpoint.clone(),
            created_at: self.created_at.clone(),
            labels: self.labels.duplicate(),
            options: self.options.duplicate(),
            scope: self.scope.clone(),
            status: self.status.duplicate(),
        }
    }
}

/// What can go wrong with a volume.
#[derive(Debug)]
pub enum VolumeError {
    AlreadyExists { name: String },
    NotFound { name: String },
    InUse { name: String },
}

impl VolumeError {
    /// The text shown for the error.
    pub open spec fn text(&self) -> Seq<char> {
        match self {
            VolumeError::AlreadyExists { name } => "volume "@ + name@ + " already exists"@,
            VolumeError::NotFound { name } => "volume "@ + name@ + " not found"@,
            VolumeError::InUse { name } => "volume "@ + name@ + " is in use"@,
        }
    }

    /// The text shown for the error.
    pub fn message(&self) -> (r: String)
        ensures
            r@ == self.text(),
            r@ == (match self {
                VolumeError::AlreadyExists { name } => "volume "@ + name@ + " already exists"@,
                VolumeError::NotFound { name } => "volume "@ + name@ + " not found"@,
                VolumeError::InUse { name } => "volume "@ + name@ + " is in use"@,
            }),
    {
        match self {
            VolumeError::AlreadyExists { name } => {
                "volume ".to_string().concat(name.as_str()).concat(" already exists")
            },
            VolumeError::NotFound { name } => {
                "volume ".to_string().concat(name.as_str()).concat(" not found")
            },
            VolumeError::InUse { name } => {
                "volume ".to_string().concat(name.as_str()).concat(" is in use")
            },
        }
    }
}

/// What is asked of the volumes.
#[allow(inconsistent_fields)]
pub enum VolumeCommand {
    /// Create a volume.
    Create { name: String, driver: Option<String>, opt: Option<Vec<(String, String)>> },
    /// Remove volumes.
    Rm { volumes: Vec<String>, force: bool },
    /// List the volumes.
    Ls { quiet: bool },
    /// Show what is known of volumes.
    Inspect { name: Vec<String> },
    /// Remove the volumes that are not in use.
    Prune { force: bool },
}

/// What a command comes down to.
pub enum VolumeRequest {
    Create { name: String, driver: Option<String>, opts: NameMap<String> },
    Remove { names: Vec<String>, force: bool },
    List { quiet: bool },
    Inspect { names: Vec<String> },
    Prune { force: bool },
}

/// What a command comes down to: what it says, except that a volume is created without
/// options, whatever the command says of them.
pub fn volume_execute(cmd: VolumeCommand) -> (r: VolumeRequest)
    ensures
        match cmd {
            VolumeCommand::Create { name, driver, opt } => {
                r matches VolumeRequest::Create { name: n, driver: d, opts } && n == name && d
                    == driver && opts@ == Map::<Seq<char>, Seq<char>>::empty()
            },
            VolumeCommand::Rm { volumes, force } => {
                r == (VolumeRequest::Remove { names: volumes, force })
            },
            VolumeCommand::Ls { quiet } => r == (VolumeRequest::List { quiet }),
            VolumeCommand::Inspect { name } => r == (VolumeRequest::Inspect { names: name }),
            VolumeCommand::Prune { force } => r == (VolumeRequest::Prune { force }),
        },
{
    match cmd {
        VolumeCommand::Create { name, driver, opt } => VolumeRequest::Create {
            name,
            driver,
            opts: KeyMap::new(),
        },
        VolumeCommand::Rm { volumes, force } => VolumeRequest::Remove { names: volumes, force },
        VolumeCommand::Ls { quiet } => VolumeRequest::List { quiet },
        VolumeCommand::Inspect { name } => VolumeRequest::Inspect { names: name },
        VolumeCommand::Prune { force } => VolumeRequest::Prune { force },
    }
}

/// The volumes of the host.
pub struct VolumeManager {
    volume_root: String,
    metadata_path: String,
    volumes: NameMap<VolumeMetadata>,
}

/// What a `VolumeManager` stands for.
#[verifier::ext_equal]
pub struct Volumes {
    /// The directory that the volumes are in.
    pub root: Seq<char>,
    /// The file that lists them.
    pub metadata_path: Seq<char>,
    /// The volumes by name.
    pub volumes: Map<Seq<char>, VolumeView>,
    /// Their names, oldest first.
    pub order: Seq<Seq<char>>,
}

impl View for VolumeManager {
    type V = Volumes;

    closed spec fn view(&self) -> Volumes {
        Volumes {
            root: self.volume_root@,
            metadata_path: self.metadata_path@,
            volumes: self.volumes@,
            order: self.volumes.order(),
        }
    }
}

impl Volumes {
    /// The order lists the names of the volumes, each of them once.
    pub open spec fn wf(self) -> bool {
        &&& self.order.no_duplicates()
        &&& forall|name: Seq<char>|
            self.order.contains(name) <==> #[trigger] self.volumes.contains_key(name)
    }

    /// Each volume stands under its own name.
    pub open spec fn by_own_name(self) -> bool {
        forall|name: Seq<char>|
            self.volumes.contains_key(name) ==> (#[trigger] self.volumes[name]).name == name
    }
}

/// The directory of a volume that containers see.
pub open spec fn mountpoint_of(root: Seq<char>, name: Seq<char>) -> Seq<char> {
    joined(joined(root, name), "_data"@)
}

/// A volume as it is created.
pub open spec fn new_volume(
    root: Seq<char>,
    name: Seq<char>,
    driver: Option<Seq<char>>,
    opts: Map<Seq<char>, Seq<char>>,
    created_at: Seq<char>,
) -> VolumeView {
    VolumeView {
        name,
        driver: match driver {
            Some(d) => d,
            None => "local"@,
        },
        mountpoint: mountpoint_of(root, name),
        created_at,
        labels: Map::empty(),
        options: opts,
        scope: "local"@,
        status: Map::empty(),
    }
}

/// The volumes with `volume` under `name`.
pub open spec fn with_volume(s: Volumes, name: Seq<char>, volume: VolumeView) -> Volumes {
    Volumes {
        volumes: s.volumes.insert(name, volume),
        order: if s.volumes.contains_key(name) {
            s.order
        } else {
            s.order.push(name)
        },
        ..s
    }
}

/// The volumes without the one under `name`.
pub open spec fn without_volume(s: Volumes, name: Seq<char>) -> Volumes {
    Volumes { volumes: s.volumes.remove(name), order: s.order.remove_value(name), ..s }
}

/// Whether a volume may be removed.
pub open spec fn may_remove(
    s: Volumes,
    name: Seq<char>,
    force: bool,
    mounted: Seq<Seq<char>>,
) -> bool {
    s.volumes.contains_key(name) && (force || !mounted.contains(name))
}

/// Whether `error` is the reason for which a volume may not be removed.
pub open spec fn removal_refused(s: Volumes, name: Seq<char>, error: VolumeError) -> bool {
    match error {
        VolumeError::NotFound { name: n } => n@ == name && !s.volumes.contains_key(name),
        VolumeError::InUse { name: n } => n@ == name && s.volumes.contains_key(name),
        VolumeError::AlreadyExists { name: _ } => false,
    }
}

/// Whether `count` decimal digits stand in `text` from place `from` on.
pub open spec fn has_digits(text: Seq<char>, from: int, count: int) -> bool {
    forall|i: int| from <= i < from + count ==> is_digit(#[trigger] text[i])
}

/// The number of two digits in place `from` of `text`.
pub open spec fn two_digits(text: Seq<char>, from: int) -> nat {
    digits_value(text.subrange(from, from + 2))
}

/// Whether `text` is a date and a time of UTC, `YYYY-MM-DDThh:mm:ss+00:00`, with a year of `y`
/// characters and, before the offset, a fraction of a second of `f` characters. A year of more
/// than four digits has a sign. The last second of a minute may be a leap second.
pub open spec fn is_utc_time_of(text: Seq<char>, y: int, f: int) -> bool {
    &&& text.len() == y + f + 21
    &&& y == 4 && has_digits(text, 0, 4) || (y == 6 || y == 7) && text[0] == '+' && has_digits(
        text,
        1,
        y - 1,
    )
    &&& text[y] == '-' && has_digits(text, y + 1, 2) && 1 <= two_digits(text, y + 1) <= 12
    &&& text[y + 3] == '-' && has_digits(text, y + 4, 2) && 1 <= two_digits(text, y + 4) <= 31
    &&& text[y + 6] == 'T' && has_digits(text, y + 7, 2) && two_digits(text, y + 7) < 24
    &&& text[y + 9] == ':' && has_digits(text, y + 10, 2) && two_digits(text, y + 10) < 60
    &&& text[y + 12] == ':' && has_digits(text, y + 13, 2) && two_digits(text, y + 13) <= 60
    &&& f == 0 || (f == 4 || f == 7 || f == 10) && text[y + 15] == '.' && has_digits(
        text,
        y + 16,
        f - 1,
    )
    &&& text.skip(y + f + 15) == "+00:00"@
}

/// Whether `text` is a date and a time of UTC.
pub open spec fn is_utc_time(text: Seq<char>) -> bool {
    exists|y: int, f: int| #[trigger] is_utc_time_of(text, y, f)
}

/// Calls `chrono::Utc::now` and `chrono::DateTime::to_rfc3339`: the time by the clock of the
/// host, as text. The text is a date and a time of UTC; which time it is remains unsaid. The
/// call panics where the clock stands before 1970 or past the last year that `chrono` holds,
/// which no argument decides.
#[verifier::external_body]
fn utc_now() -> (r: String)
    ensures
        is_utc_time(r@),
{
    chrono::Utc::now().to_rfc3339()
}

/// The text that `tabwriter` makes of a text with tabs.
pub uninterp spec fn aligned(text: Seq<char>) -> Seq<char>;

/// Whether `text` has a tab.
pub open spec fn has_tab(text: Seq<char>) -> bool {
    exists|i: int| 0 <= i < text.len() && text[i] == '\t'
}

/// Writes `text` to a `tabwriter::TabWriter` with its standard settings and flushes it: the
/// columns between tabs are aligned. What comes out depends on the text alone; without tabs
/// it is the text itself.
#[verifier::external_body]
fn align_columns(text: &str) -> (r: String)
    ensures
        r@ == aligned(text@),
        !has_tab(text@) ==> r@ == text@,
{
    let mut writer = tabwriter::TabWriter::new(Vec::new());
    std::io::Write::write_all(&mut writer, text.as_bytes()).unwrap();
    String::from_utf8(writer.into_inner().unwrap()).unwrap()
}

/// The line for a volume.
pub open spec fn row(volume: VolumeView, quiet: bool) -> Seq<char> {
    if quiet {
        volume.name + "\n"@
    } else {
        volume.driver + "\t"@ + volume.name + "\n"@
    }
}

/// The lines for `volumes`.
pub open spec fn rows(volumes: Seq<VolumeView>, quiet: bool) -> Seq<char>
    decreases volumes.len(),
{
    if volumes.len() == 0 {
        Seq::empty()
    } else {
        rows(volumes.drop_last(), quiet) + row(volumes.last(), quiet)
    }
}

/// The line above the volumes.
pub open spec fn header(quiet: bool) -> Seq<char> {
    if quiet {
        "VOLUME NAME\n"@
    } else {
        "DRIVER\tVOLUME NAME\n"@
    }
}

/// The volumes in order.
pub open spec fn listed(s: Volumes) -> Seq<VolumeView> {
    Seq::new(s.order.len(), |i: int| s.volumes[s.order[i]])
}

/// Whether one of `texts` is the path `mountpoint` or one below it.
pub open spec fn refers_to(texts: Seq<Seq<char>>, mountpoint: Seq<char>) -> bool {
    exists|i: int| 0 <= i < texts.len() && within(#[trigger] texts[i], mountpoint)
}

/// The names of the volumes to whose mountpoint one of `texts` refers.
pub open spec fn referred(s: Volumes, texts: Seq<Seq<char>>) -> Seq<Seq<char>> {
    s.order.filter(|name: Seq<char>| refers_to(texts, s.volumes[name].mountpoint))
}

fn mentions(texts: &Vec<String>, mountpoint: &String) -> (r: bool)
    ensures
        r == refers_to(texts.deep_view(), mountpoint@),
{
    let n: usize = texts.len();
    let mut i: usize = 0;
    while i < n
        invariant
            i <= n,
            n == texts.len(),
            forall|j: int| 0 <= j < i ==> !within(#[trigger] texts.deep_view()[j], mountpoint@),
        decreases n - i,
    {
        if is_within(&texts[i], mountpoint) {
            assert(within(texts.deep_view()[i as int], mountpoint@));
            return true;
        }
        i = i + 1;
    }
    false
}

impl VolumeManager {
    /// The file that lists the volumes.
    pub fn metadata_file() -> (r: String)
        ensures
            r@ == joined(VOLUME_ROOT@, METADATA_FILE@),
    {
        join(VOLUME_ROOT, METADATA_FILE)
    }

    /// A manager for the volumes that were `stored`, if any were.
    pub fn new(stored: Option<NameMap<VolumeMetadata>>) -> (r: Self)
        ensures
            r@ == (Volumes {
                root: VOLUME_ROOT@,
                metadata_path: joined(VOLUME_ROOT@, METADATA_FILE@),
                volumes: match stored {
                    Some(volumes) => volumes@,
                    None => Map::empty(),
                },
                order: match stored {
                    Some(volumes) => volumes.order(),
                    None => Seq::empty(),
                },
            }),
            r@.wf(),
    {
        let volumes: NameMap<VolumeMetadata> = match stored {
            Some(volumes) => volumes,
            None => KeyMap::new(),
        };
        proof {
            use_type_invariant(&volumes);
            order_lists_the_keys(volumes);
        }
        VolumeManager {
            volume_root: VOLUME_ROOT.to_string(),
            metadata_path: VolumeManager::metadata_file(),
            volumes,
        }
    }

    /// The volumes by name, as they are stored.
    pub fn volumes(&self) -> (r: &NameMap<VolumeMetadata>)
        ensures
            r@ == self@.volumes,
            r.order() == self@.order,
    {
        &self.volumes
    }

    /// The file that the volumes are stored in.
    pub fn metadata_path(&self) -> (r: &String)
        ensures
            r@ == self@.metadata_path,
    {
        &self.metadata_path
    }

    fn mountpoint(&self, name: &String) -> (r: String)
        ensures
            r@ == mountpoint_of(self@.root, name@),
    {
        join(join(self.volume_root.as_str(), name.as_str()).as_str(), "_data")
    }

    /// The directory to make for a new volume, provided that there is none of that name.
    pub fn prepare_create(&self, name: &String) -> (r: Result<String, VolumeError>)
        ensures
            match r {
                Ok(dir) => {
                    &&& !self@.volumes.contains_key(name@)
                    &&& dir@ == mountpoint_of(self@.root, name@)
                    &&& dir@ == joined(joined(self@.root, name@), "_data"@)
                },
                Err(error) => {
                    &&& self@.volumes.contains_key(name@)
                    &&& error matches VolumeError::AlreadyExists { name: n }
                    &&& n@ == name@
                },
            },
    {
        if self.volumes.contains_key(name) {
            Err(VolumeError::AlreadyExists { name: name.clone() })
        } else {
            Ok(self.mountpoint(name))
        }
    }

    /// Enters a volume whose directory has been made, with the time that the clock shows.
    pub fn create(&mut self, name: String, driver: Option<String>, opts: NameMap<String>) -> (r:
        Result<VolumeMetadata, VolumeError>)
        ensures
            match r {
                Ok(volume) => {
                    &&& !old(self)@.volumes.contains_key(name@)
                    &&& volume.deep_view() == new_volume(
                        old(self)@.root,
                        name@,
                        driver.deep_view(),
                        opts@,
                        volume.created_at@,
                    )
                    &&& is_utc_time(volume.created_at@)
                    &&& final(self)@ == with_volume(old(self)@, name@, volume.deep_view())
                    &&& volume.name@ == name@
                    &&& volume.driver@ == (match driver {
                        Some(given) => given@,
                        None => "local"@,
                    })
                    &&& volume.mountpoint@ == joined(joined(old(self)@.root, name@), "_data"@)
                    &&& volume.scope@ == "local"@
                    &&& volume.options@ == opts@
                    &&& volume.labels@ == Map::<Seq<char>, Seq<char>>::empty()
                    &&& volume.status@ == Map::<Seq<char>, Seq<char>>::empty()
                    &&& final(self)@.volumes == old(self)@.volumes.insert(
                        name@,
                        volume.deep_view(),
                    )
                    &&& final(self)@.order == old(self)@.order.push(name@)
                    &&& final(self)@.root == old(self)@.root
                    &&& final(self)@.metadata_path == old(self)@.metadata_path
                    &&& final(self)@.wf()
                },
                Err(error) => {
                    &&& old(self)@.volumes.contains_key(name@)
                    &&& error matches VolumeError::AlreadyExists { name: n }
                    &&& n@ == name@
                    &&& final(self)@ == old(self)@
                },
            },
    {
        self.create_at(name, driver, opts, utc_now())
    }

    /// Enters a volume whose directory has been made, with the time `created_at`.
    pub fn create_at(
        &mut self,
        name: String,
        driver: Option<String>,
        opts: NameMap<String>,
        created_at: String,
    ) -> (r: Result<VolumeMetadata, VolumeError>)
        ensures
            match r {
                Ok(volume) => {
                    &&& !old(self)@.volumes.contains_key(name@)
                    &&& volume.deep_view() == new_volume(
                        old(self)@.root,
                        name@,
                        driver.deep_view(),
                        opts@,
                        created_at@,
                    )
                    &&& volume.created_at@ == created_at@
                    &&& final(self)@ == with_volume(old(self)@, name@, volume.deep_view())
                    &&& volume.name@ == name@
                    &&& volume.driver@ == (match driver {
                        Some(given) => given@,
                        None => "local"@,
                    })
                    &&& volume.mountpoint@ == joined(joined(old(self)@.root, name@), "_data"@)
                    &&& volume.scope@ == "local"@
                    &&& volume.options@ == opts@
                    &&& volume.labels@ == Map::<Seq<char>, Seq<char>>::empty()
                    &&& volume.status@ == Map::<Seq<char>, Seq<char>>::empty()
                    &&& final(self)@.volumes == old(self)@.volumes.insert(
                        name@,
                        volume.deep_view(),
                    )
                    &&& final(self)@.order == old(self)@.order.push(name@)
                    &&& final(self)@.root == old(self)@.root
                    &&& final(self)@.metadata_path == old(self)@.metadata_path
                    &&& final(self)@.wf()
                },
                Err(error) => {
                    &&& old(self)@.volumes.contains_key(name@)
                    &&& error matches VolumeError::AlreadyExists { name: n }
                    &&& n@ == name@
                    &&& final(self)@ == old(self)@
                },
            },
    {
        if self.volumes.contains_key(&name) {
            return Err(VolumeError::AlreadyExists { name });
        }
        let mountpoint = self.mountpoint(&name);
        let driver: String = match driver {
            Some(driver) => driver,
            None => "local".to_string(),
        };
        let metadata = VolumeMetadata {
            name: name.clone(),
            driver,
            mountpoint,
            created_at,
            labels: KeyMap::new(),
            options: opts,
            scope: "local".to_string(),
            status: KeyMap::new(),
        };
        self.volumes.insert(name, metadata.duplicate());
        proof {
            order_lists_the_keys(self.volumes);
        }
        Ok(metadata)
    }

    /// Whether a container refers to the volume, given the names of all volumes that
    /// containers refer to.
    pub fn is_volume_in_use(&self, name: &String, mounted: &Vec<String>) -> (r: bool)
        ensures
            r == mounted.deep_view().contains(name@),
    {
        let n: usize = mounted.len();
        let mut i: usize = 0;
        while i < n
            invariant
                i <= n,
                n == mounted.len(),
                forall|j: int| 0 <= j < i ==> #[trigger] mounted.deep_view()[j] != name@,
            decreases n - i,
        {
            if mounted[i] == *name {
                assert(mounted.deep_view()[i as int] == name@);
                return true;
            }
            i = i + 1;
        }
        false
    }

    /// The directory to delete for a volume that is to be removed: the one that its
    /// mountpoint is in. The volume must be there, and unless `force` is set no container may
    /// refer to it.
    pub fn prepare_remove(&self, name: &String, force: bool, mounted: &Vec<String>) -> (r: Result<
        String,
        VolumeError,
    >)
        requires
            may_remove(self@, name@, force, mounted.deep_view()) ==> parent_of(
                self@.volumes[name@].mountpoint,
            ) is Some,
        ensures
            match r {
                Ok(dir) => may_remove(self@, name@, force, mounted.deep_view()) && Some(dir@)
                    == parent_of(self@.volumes[name@].mountpoint),
                Err(error) => !may_remove(self@, name@, force, mounted.deep_view())
                    && removal_refused(self@, name@, error),
            },
            r is Ok ==> self@.volumes.contains_key(name@) && (force
                || !mounted.deep_view().contains(name@)),
            r matches Err(VolumeError::NotFound { name: n }) ==> n@ == name@
                && !self@.volumes.contains_key(name@),
            r matches Err(VolumeError::InUse { name: n }) ==> n@ == name@
                && self@.volumes.contains_key(name@) && !force && mounted.deep_view().contains(
                name@,
            ),
            !(r matches Err(VolumeError::AlreadyExists { name: _ })),
    {
        match self.volumes.get(name) {
            Some(volume) => {
                if !force && self.is_volume_in_use(name, mounted) {
                    return Err(VolumeError::InUse { name: name.clone() });
                }
                Ok(parent(volume.mountpoint.as_str()).unwrap())
            },
            None => Err(VolumeError::NotFound { name: name.clone() }),
        }
    }

    /// Takes out a volume whose directory has been deleted.
    pub fn remove(&mut self, name: &String, force: bool, mounted: &Vec<String>) -> (r: Result<
        (),
        VolumeError,
    >)
        ensures
            match r {
                Ok(_) => {
                    &&& may_remove(old(self)@, name@, force, mounted.deep_view())
                    &&& final(self)@ == without_volume(old(self)@, name@)
                    &&& final(self)@.wf()
                },
                Err(error) => !may_remove(old(self)@, name@, force, mounted.deep_view())
                    && removal_refused(old(self)@, name@, error) && final(self)@ == old(self)@,
            },
            r is Ok ==> old(self)@.volumes.contains_key(name@) && (force
                || !mounted.deep_view().contains(name@)),
            r is Ok ==> final(self)@.volumes == old(self)@.volumes.remove(name@)
                && final(self)@.order == old(self)@.order.remove_value(name@) && final(self)@.root
                == old(self)@.root && final(self)@.metadata_path == old(self)@.metadata_path,
            r matches Err(VolumeError::NotFound { name: n }) ==> n@ == name@
                && !old(self)@.volumes.contains_key(name@),
            r matches Err(VolumeError::InUse { name: n }) ==> n@ == name@
                && old(self)@.volumes.contains_key(name@) && !force
                && mounted.deep_view().contains(name@),
            !(r matches Err(VolumeError::AlreadyExists { name: _ })),
    {
        if !self.volumes.contains_key(name) {
            return Err(VolumeError::NotFound { name: name.clone() });
        }
        if !force && self.is_volume_in_use(name, mounted) {
            return Err(VolumeError::InUse { name: name.clone() });
        }
        self.volumes.remove(name);
        proof {
            order_lists_the_keys(self.volumes);
        }
        Ok(())
    }

    /// The volumes `names`, to be removed in that order until one of them fails.
    pub fn remove_<E>(names: Vec<String>) -> (r: Removal<E>)
        ensures
            r@ == begun::<E>(names.deep_view()),
            r@.left == names.deep_view() && r@.removed.len() == 0 && r@.failure == None::<E>,
    {
        Removal::begin(names)
    }

    /// The names of the volumes that containers refer to, given the documents about all
    /// containers: a document refers to a volume by its mountpoint or a path below it.
    pub fn volumes_in_use(&self, documents: &Vec<Json>) -> (r: Vec<String>)
        ensures
            r.deep_view() == referred(self@, texts_of_items(documents@)),
    {
        self.referred_by(&all_texts(documents))
    }

    fn referred_by(&self, texts: &Vec<String>) -> (r: Vec<String>)
        ensures
            r.deep_view() == referred(self@, texts.deep_view()),
    {
        let ghost order = self@.order;
        let ghost in_use = |name: Seq<char>|
            refers_to(texts.deep_view(), self@.volumes[name].mountpoint);
        let n: usize = self.volumes.len();
        let mut out: Vec<String> = Vec::new();
        let mut i: usize = 0;
        proof {
            reveal(Seq::filter);
            assert(order.take(0).filter(in_use) =~= Seq::empty());
            assert(out.deep_view() =~= Seq::empty());
        }
        while i < n
            invariant
                i <= n,
                n == self.volumes.order().len(),
                order == self@.order,
                in_use == (|name: Seq<char>|
                    refers_to(texts.deep_view(), self@.volumes[name].mountpoint)),
                out.deep_view() == order.take(i as int).filter(in_use),
            decreases n - i,
        {
            let name: String = self.volumes.key_at(i).clone();
            let ghost before = out;
            let found: bool = mentions(texts, &self.volumes.value_at(i).mountpoint);
            if found {
                out.push(name);
                assert(out.deep_view() =~= before.deep_view().push(name@));
            }
            proof {
                reveal(Seq::filter);
                assert(order.take(i + 1).drop_last() =~= order.take(i as int));
                assert(order.take(i + 1).last() == name@);
                assert(in_use(name@) == found);
            }
            i = i + 1;
        }
        assert(order.take(n as int) =~= order);
        out
    }

    /// All volumes.
    pub fn list(&self) -> (r: Vec<&VolumeMetadata>)
        ensures
            r.deep_view() == listed(self@),
            r@.len() == self@.order.len(),
            forall|i: int|
                0 <= i < r@.len() ==> #[trigger] r.deep_view()[i] == self@.volumes[self@.order[i]],
    {
        let n: usize = self.volumes.len();
        let mut out: Vec<&VolumeMetadata> = Vec::new();
        let mut i: usize = 0;
        while i < n
            invariant
                i <= n,
                n == self.volumes.order().len(),
                out.len() == i,
                forall|j: int| 0 <= j < i ==> #[trigger] out@[j].deep_view() == listed(self@)[j],
            decreases n - i,
        {
            out.push(self.volumes.value_at(i));
            i = i + 1;
        }
        assert(out.deep_view() =~= listed(self@));
        out
    }

    /// What is known of the volume `name`.
    pub fn inspect(&self, name: &str) -> (r: Result<&VolumeMetadata, VolumeError>)
        ensures
            match r {
                Ok(volume) => self@.volumes.contains_key(name@) && volume.deep_view()
                    == self@.volumes[name@],
                Err(error) => {
                    &&& !self@.volumes.contains_key(name@)
                    &&& error matches VolumeError::NotFound { name: n }
                    &&& n@ == name@
                },
            },
    {
        let key: String = name.to_string();
        match self.volumes.get(&key) {
            Some(volume) => Ok(volume),
            None => Err(VolumeError::NotFound { name: key }),
        }
    }

    /// Whether `volume` is the one under `name`.
    pub open spec fn shows(&self, name: Seq<char>, volume: &VolumeMetadata) -> bool {
        self@.volumes.contains_key(name) && volume.deep_view() == self@.volumes[name]
    }

    /// What is known of the volumes `names`, one after the other, up to the first that is not
    /// there; of that one comes the error.
    pub fn inspect_(&self, names: &Vec<String>) -> (r: (Vec<&VolumeMetadata>, Option<VolumeError>))
        ensures
            r.0.len() <= names.len(),
            forall|i: int| 0 <= i < r.0.len() ==> self.shows(#[trigger] names@[i]@, r.0@[i]),
            forall|i: int|
                0 <= i < r.0.len() ==> self@.volumes.contains_key(#[trigger] names@[i]@)
                    && r.0@[i].deep_view() == self@.volumes[names@[i]@],
            match r.1 {
                Some(error) => {
                    &&& r.0.len() < names.len()
                    &&& !self@.volumes.contains_key(names@[r.0.len() as int]@)
                    &&& error matches VolumeError::NotFound { name }
                    &&& name@ == names@[r.0.len() as int]@
                },
                None => r.0.len() == names.len(),
            },
    {
        let n: usize = names.len();
        let mut shown: Vec<&VolumeMetadata> = Vec::new();
        let mut i: usize = 0;
        while i < n
            invariant
                i <= n,
                n == names.len(),
                shown.len() == i,
                forall|j: int| 0 <= j < i ==> self.shows(#[trigger] names@[j]@, shown@[j]),
            decreases n - i,
        {
            match self.inspect(names[i].as_str()) {
                Ok(volume) => {
                    shown.push(volume);
                },
                Err(error) => {
                    return (shown, Some(error));
                },
            }
            i = i + 1;
        }
        (shown, None)
    }

    /// Starts to remove the volumes that no container refers to.
    pub fn prune<E>(&self) -> (r: Pruning<E>)
        ensures
            r@ == begun::<E>(self@.order),
            r@.left == self@.order && r@.removed.len() == 0 && r@.failure == None::<E>,
            self@.wf(),
    {
        let n: usize = self.volumes.len();
        let mut names: Vec<String> = Vec::new();
        let mut i: usize = 0;
        while i < n
            invariant
                i <= n,
                n == self.volumes.order().len(),
                names.len() == i,
                forall|j: int| 0 <= j < i ==> #[trigger] names@[j]@ == self.volumes.order()[j],
            decreases n - i,
        {
            names.push(self.volumes.key_at(i).clone());
            i = i + 1;
        }
        proof {
            use_type_invariant(&self.volumes);
            order_lists_the_keys(self.volumes);
            assert(names.deep_view() =~= self.volumes.order());
        }
        Pruning::begin(names)
    }

    /// The table of the volumes, with tabs between its columns: drivers and names, or only
    /// names where `quiet` is set.
    pub fn table(&self, quiet: bool) -> (r: String)
        ensures
            r@ == header(quiet) + rows(listed(self@), quiet),
    {
        let mut text: String = if quiet {
            "VOLUME NAME\n".to_string()
        } else {
            "DRIVER\tVOLUME NAME\n".to_string()
        };
        let ghost all = listed(self@);
        let n: usize = self.volumes.len();
        let mut i: usize = 0;
        assert(text@ =~= header(quiet) + rows(all.take(0), quiet));
        while i < n
            invariant
                i <= n,
                n == self.volumes.order().len(),
                all == listed(self@),
                text@ == header(quiet) + rows(all.take(i as int), quiet),
            decreases n - i,
        {
            let volume: &VolumeMetadata = self.volumes.value_at(i);
            let ghost before = text@;
            if !quiet {
                text.append(volume.driver.as_str());
                text.append("\t");
            }
            text.append(volume.name.as_str());
            text.append("\n");
            proof {
                assert(all[i as int] == volume.deep_view());
                assert(text@ =~= before + row(all[i as int], quiet));
                assert(all.take(i + 1).drop_last() =~= all.take(i as int));
                assert(text@ =~= header(quiet) + rows(all.take(i + 1), quiet));
            }
            i = i + 1;
        }
        assert(all.take(n as int) =~= all);
        text
    }

    /// The table of the volumes as it is shown.
    pub fn ls(&self, quiet: bool) -> (r: String)
        ensures
            r@ == aligned(header(quiet) + rows(listed(self@), quiet)),
            !has_tab(header(quiet) + rows(listed(self@), quiet)) ==> r@ == header(quiet) + rows(
                listed(self@),
                quiet,
            ),
    {
        align_columns(self.table(quiet).as_str())
    }
}

/// A volume that was created is found under its name as it was entered, and all other
/// volumes are found as before.
pub proof fn created_volume_is_found(
    s: Volumes,
    name: Seq<char>,
    volume: VolumeView,
    other: Seq<char>,
)
    ensures
        with_volume(s, name, volume).volumes.contains_key(name),
        with_volume(s, name, volume).volumes[name] == volume,
        other != name ==> with_volume(s, name, volume).volumes.contains_key(other)
            == s.volumes.contains_key(other),
        other != name && s.volumes.contains_key(other) ==> with_volume(
            s,
            name,
            volume,
        ).volumes[other] == s.volumes[other],
{
}

/// Removing a volume that was just created gives back the volumes as they were, order
/// included, and a removed volume is not found.
pub proof fn removal_undoes_creation(s: Volumes, name: Seq<char>, volume: VolumeView)
    requires
        s.wf(),
        !s.volumes.contains_key(name),
    ensures
        without_volume(with_volume(s, name, volume), name) == s,
        !without_volume(with_volume(s, name, volume), name).volumes.contains_key(name),
{
    let after = with_volume(s, name, volume);
    assert(!s.order.contains(name));
    after.order.index_of_first_ensures(name);
    assert(after.order[s.order.len() as int] == name);
    assert(after.order.index_of_first(name) == Some(s.order.len() as int)) by {
        let i = after.order.index_of_first(name)->0;
        if i < s.order.len() {
            assert(s.order[i] == name);
        }
    }
    assert(after.order.remove(s.order.len() as int) =~= s.order);
    assert(without_volume(after, name).volumes =~= s.volumes);
}

/// Creating and removing volumes keeps each volume under its own name.
pub proof fn volumes_keep_their_names(
    s: Volumes,
    name: Seq<char>,
    driver: Option<Seq<char>>,
    opts: Map<Seq<char>, Seq<char>>,
    created_at: Seq<char>,
)
    requires
        s.by_own_name(),
    ensures
        with_volume(s, name, new_volume(s.root, name, driver, opts, created_at)).by_own_name(),
        without_volume(s, name).by_own_name(),
{
}

proof fn data_is_an_entry_name()
    ensures
        is_entry_name("_data"@),
{
    reveal_strlit("_data");
    assert("_data"@.len() == 5);
    assert(seq!['.'].len() == 1);
}

/// There is a directory to delete for every volume that was created, whatever its name. For
/// an entry name it is the directory of that name below the root.
pub proof fn created_volumes_have_a_directory_to_delete(root: Seq<char>, name: Seq<char>)
    ensures
        parent_of(mountpoint_of(root, name)) is Some,
        root.len() > 0 && root[0] == '/' && root.last() != '/' && is_entry_name(name) ==> parent_of(
            mountpoint_of(root, name),
        ) == Some(joined(root, name)),
{
    data_is_an_entry_name();
    joined_path_has_a_parent(joined(root, name), "_data"@);
    if root.len() > 0 && root[0] == '/' && root.last() != '/' && is_entry_name(name) {
        parent_undoes_join(root, name, "_data"@);
    }
}

/// Volumes with different entry names have different directories.
pub proof fn volumes_do_not_share_directories(root: Seq<char>, a: Seq<char>, b: Seq<char>)
    requires
        is_entry_name(a),
        is_entry_name(b),
        a != b,
    ensures
        joined(root, a) != joined(root, b),
        mountpoint_of(root, a) != mountpoint_of(root, b),
{
    data_is_an_entry_name();
    let x = joined(root, a);
    let y = joined(root, b);
    if x == y {
        assert(x.skip(x.len() - a.len()) =~= a);
        assert(y.skip(y.len() - b.len()) =~= b);
    }
    let p = mountpoint_of(root, a);
    let q = mountpoint_of(root, b);
    assert(x.last() == a.last());
    assert(y.last() == b.last());
    if p == q {
        assert(p.take(p.len() - 1 - "_data"@.len()) =~= x);
        assert(q.take(q.len() - 1 - "_data"@.len()) =~= y);
    }
}

/// Without tabs in their names, a quiet table shows the volumes one to a line, just as they
/// are.
pub proof fn quiet_table_has_no_tabs(volumes: Seq<VolumeView>)
    requires
        forall|i: int| 0 <= i < volumes.len() ==> !has_tab((#[trigger] volumes[i]).name),
    ensures
        !has_tab(header(true) + rows(volumes, true)),
    decreases volumes.len(),
{
    reveal_strlit("VOLUME NAME\n");
    reveal_strlit("\n");
    if volumes.len() == 0 {
        assert(header(true) + rows(volumes, true) =~= header(true));
    } else {
        let rest = volumes.drop_last();
        assert forall|i: int| 0 <= i < rest.len() implies !has_tab((#[trigger] rest[i]).name) by {
            assert(rest[i] == volumes[i]);
        }
        quiet_table_has_no_tabs(rest);
        let before = header(true) + rows(rest, true);
        let name = volumes.last().name;
        let all = header(true) + rows(volumes, true);
        assert(all =~= before + name + "\n"@);
        assert(!has_tab(name));
        assert forall|i: int| 0 <= i < all.len() implies all[i] != '\t' by {
            if i < before.len() {
                assert(before[i] == all[i]);
            } else if i < before.len() + name.len() {
                assert(name[i - before.len()] == all[i]);
            }
        }
    }
}

/// Whatever the name, the driver, the options and the time of a volume that is created: it has
/// the name, the options and the time that were given and, where none was given, the driver
/// `local`; its scope is `local`, and it has neither labels nor a status. Only the name decides
/// where below the root it lies.
pub proof fn created_volumes_are_local(
    root: Seq<char>,
    name: Seq<char>,
    driver: Option<Seq<char>>,
    opts: Map<Seq<char>, Seq<char>>,
    created_at: Seq<char>,
)
    ensures
        ({
            let v = new_volume(root, name, driver, opts, created_at);
            &&& v.name == name && v.created_at == created_at && v.options == opts
            &&& driver is Some ==> v.driver == driver->0
            &&& driver is None ==> v.driver == "local"@
            &&& v.scope == "local"@
            &&& v.labels == Map::<Seq<char>, Seq<char>>::empty()
            &&& v.status == Map::<Seq<char>, Seq<char>>::empty()
            &&& v.mountpoint == joined(joined(root, name), "_data"@)
        }),
{
}

/// Entering a volume adds it under its name, last in the order unless the name was there;
/// taking it out removes that name. The place of the volumes stays in both cases.
pub proof fn entering_and_taking_out(s: Volumes, name: Seq<char>, volume: VolumeView)
    ensures
        ({
            let w = with_volume(s, name, volume);
            &&& w.volumes == s.volumes.insert(name, volume)
            &&& w.order == (if s.volumes.contains_key(name) {
                s.order
            } else {
                s.order.push(name)
            })
            &&& w.root == s.root && w.metadata_path == s.metadata_path
        }),
        ({
            let w = without_volume(s, name);
            &&& w.volumes == s.volumes.remove(name)
            &&& w.order == s.order.remove_value(name)
            &&& w.root == s.root && w.metadata_path == s.metadata_path
        }),
{
}

/// A volume may be removed exactly if it is there and either force is used or it is not in use.
pub proof fn who_may_be_removed(
    s: Volumes,
    name: Seq<char>,
    force: bool,
    mounted: Seq<Seq<char>>,
)
    ensures
        may_remove(s, name, force, mounted) <==> s.volumes.contains_key(name) && (force
            || !mounted.contains(name)),
{
}

/// The table has a line for each volume, in order, behind its header: the driver, a tab and the
/// name, or the name alone in a quiet table, and a line end.
pub proof fn one_line_for_each_volume(volumes: Seq<VolumeView>, lines: Seq<Seq<char>>, quiet: bool)
    requires
        lines.len() == volumes.len(),
        forall|i: int|
            0 <= i < lines.len() ==> #[trigger] lines[i] == (if quiet {
                volumes[i].name + "\n"@
            } else {
                volumes[i].driver + "\t"@ + volumes[i].name + "\n"@
            }),
    ensures
        header(quiet) + rows(volumes, quiet) == (if quiet {
            "VOLUME NAME\n"@
        } else {
            "DRIVER\tVOLUME NAME\n"@
        }) + lines.flatten(),
    decreases volumes.len(),
{
    if volumes.len() == 0 {
        assert(lines.flatten() =~= Seq::<char>::empty());
    } else {
        let fewer = volumes.drop_last();
        let less = lines.drop_last();
        assert forall|i: int| 0 <= i < less.len() implies #[trigger] less[i] == (if quiet {
            fewer[i].name + "\n"@
        } else {
            fewer[i].driver + "\t"@ + fewer[i].name + "\n"@
        }) by {
            assert(less[i] == lines[i]);
        }
        one_line_for_each_volume(fewer, less, quiet);
        let start = header(quiet);
        assert(rows(fewer, quiet) =~= less.flatten()) by {
            assert((start + rows(fewer, quiet)).skip(start.len() as int) =~= rows(fewer, quiet));
            assert((start + less.flatten()).skip(start.len() as int) =~= less.flatten());
        }
        less.lemma_flatten_push(lines.last());
        assert(less.push(lines.last()) =~= lines);
        assert(lines[lines.len() - 1] == row(volumes.last(), quiet));
    }
}

/// The line of the volume in place `i` stands right behind the header and the lines of the
/// volumes before it.
pub proof fn lines_stand_in_order(volumes: Seq<VolumeView>, quiet: bool, i: int)
    requires
        0 <= i < volumes.len(),
    ensures
        ({
            let line = if quiet {
                volumes[i].name + "\n"@
            } else {
                volumes[i].driver + "\t"@ + volumes[i].name + "\n"@
            };
            let before = rows(volumes.take(i), quiet);
            &&& rows(volumes, quiet).take(before.len() as int) == before
            &&& rows(volumes, quiet).skip(before.len() as int).take(line.len() as int) == line
            &&& before.len() + line.len() <= rows(volumes, quiet).len()
        }),
    decreases volumes.len(),
{
    let all = rows(volumes, quiet);
    let fewer = volumes.drop_last();
    let last = row(volumes.last(), quiet);
    if i == volumes.len() - 1 {
        assert(volumes.take(i) =~= fewer);
        assert(all.take(rows(fewer, quiet).len() as int) =~= rows(fewer, quiet));
        assert(all.skip(rows(fewer, quiet).len() as int) =~= last);
        assert(last.take(last.len() as int) =~= last);
    } else {
        lines_stand_in_order(fewer, quiet, i);
        assert(fewer.take(i) =~= volumes.take(i));
        assert(fewer[i] == volumes[i]);
        let before = rows(volumes.take(i), quiet);
        let shorter = rows(fewer, quiet);
        let line = row(volumes[i], quiet);
        assert(all.take(before.len() as int) =~= shorter.take(before.len() as int));
        assert(all.skip(before.len() as int).take(line.len() as int) =~= shorter.skip(
            before.len() as int,
        ).take(line.len() as int));
    }
}

/// The volumes are listed in order, each of them once.
pub proof fn listing(s: Volumes, i: int)
    ensures
        listed(s).len() == s.order.len(),
        0 <= i < s.order.len() ==> listed(s)[i] == s.volumes[s.order[i]],
{
}

/// Containers refer to a volume exactly if one of their texts is its mountpoint, or its
/// mountpoint, a separator and something more.
pub proof fn referring(s: Volumes, texts: Seq<Seq<char>>, name: Seq<char>, i: int)
    requires
        s.wf(),
    ensures
        referred(s, texts).contains(name) ==> s.volumes.contains_key(name) && exists|k: int|
            0 <= k < texts.len() && within(#[trigger] texts[k], s.volumes[name].mountpoint),
        s.volumes.contains_key(name) && 0 <= i < texts.len() && within(
            texts[i],
            s.volumes[name].mountpoint,
        ) ==> referred(s, texts).contains(name),
{
    let in_use = |n: Seq<char>| refers_to(texts, s.volumes[n].mountpoint);
    let found = referred(s, texts);
    assert(found == s.order.filter(in_use));
    if found.contains(name) {
        let k = found.index_of(name);
        s.order.lemma_filter_pred(in_use, k);
        s.order.lemma_filter_contains_rev(in_use, name);
    }
    if s.volumes.contains_key(name) && 0 <= i < texts.len() && within(
        texts[i],
        s.volumes[name].mountpoint,
    ) {
        assert(in_use(name));
        s.order.lemma_filter_contains(in_use, s.order.index_of(name));
    }
}

/// What a volume stands for shows all of it.
pub proof fn volumes_are_shown_whole(v: VolumeMetadata)
    ensures
        v.deep_view().name == v.name@ && v.deep_view().driver == v.driver@,
        v.deep_view().mountpoint == v.mountpoint@ && v.deep_view().created_at == v.created_at@,
        v.deep_view().labels == v.labels@ && v.deep_view().options == v.options@,
        v.deep_view().scope == v.scope@ && v.deep_view().status == v.status@,
{
}

/// The state of the volumes is sound where the order lists their names, each of them once.
pub proof fn sound_volumes(s: Volumes)
    ensures
        s.wf() <==> s.order.no_duplicates() && forall|name: Seq<char>|
            s.order.contains(name) <==> #[trigger] s.volumes.contains_key(name),
        s.by_own_name() <==> forall|name: Seq<char>|
            s.volumes.contains_key(name) ==> (#[trigger] s.volumes[name]).name == name,
{
}

/// The volumes that containers refer to come in the order of the volumes, each of them once:
/// they are what is left of that order by the property of being referred to.
pub proof fn referred_volumes_keep_their_order(
    s: Volumes,
    texts: Seq<Seq<char>>,
    p: spec_fn(Seq<char>) -> bool,
)
    requires
        forall|name: Seq<char>| #[trigger]
            p(name) <==> exists|k: int|
                0 <= k < texts.len() && within(#[trigger] texts[k], s.volumes[name].mountpoint),
    ensures
        referred(s, texts) == s.order.filter(p),
{
    let in_use = |n: Seq<char>| refers_to(texts, s.volumes[n].mountpoint);
    assert forall|n: Seq<char>| #[trigger] p(n) == in_use(n) by {
    }
    assert(p =~= in_use);
}

/// Text has a tab exactly if the tab is one of its characters.
pub proof fn having_a_tab(text: Seq<char>)
    ensures
        has_tab(text) <==> text.contains('\t'),
{
}

} // verus!

//! The cache driven against a disk held in memory.
//!
//! The disk knows directories, files with a modification time, and links
//! from one directory to another.  The driver below does for it what a real
//! driver does for the filesystem: it reports what it finds and carries out
//! what the cache decides.

use std::cell::{Cell, RefCell};
use std::collections::{BTreeMap, BTreeSet};
use std::path::{Component, Path};
use std::rc::Rc;

use fcache::{
    default_refresh_interval, Action, Cache, CacheFile, CacheLazyFile, DirStatus, Duration, Error,
    FileStatus, Lookup, Removal, Timestamp,
};

const TEST_CONTENT: &[u8] = b"Lorem ipsum dolor sit amet, consectetur adipiscing elit.\n";

fn large_content() -> Vec<u8> {
    let mut content = Vec::new();
    for i in 0..20_000u32 {
        content.extend_from_slice(format!("line {} of the large test content\n", i).as_bytes());
    }
    content
}

type Producer = Box<dyn Fn(&mut Vec<u8>) -> Result<(), String>>;

struct Disk {
    dirs: BTreeSet<String>,
    files: BTreeMap<String, (Vec<u8>, Timestamp)>,
    links: BTreeMap<String, String>,
    clock: Timestamp,
}

fn text(path: &[u8]) -> &str {
    std::str::from_utf8(path).unwrap()
}

fn at(secs: u64) -> Timestamp {
    Timestamp::after_epoch(Duration::from_secs(secs)).unwrap()
}

impl Disk {
    fn new() -> Disk {
        let mut dirs = BTreeSet::new();
        dirs.insert("/".to_string());
        Disk { dirs, files: BTreeMap::new(), links: BTreeMap::new(), clock: at(1_000_000) }
    }

    fn spell(parts: &[String]) -> String {
        format!("/{}", parts.join("/"))
    }

    /// Where `path` really is: links followed, `.` and `..` resolved.  Every
    /// component but the last has to be a directory.
    fn locate(&self, path: &[u8]) -> Result<String, String> {
        let mut parts: Vec<String> = Vec::new();
        let mut absolute = false;
        let components: Vec<Component> = Path::new(text(path)).components().collect();
        let count = components.len();
        for (i, component) in components.into_iter().enumerate() {
            match component {
                Component::RootDir => {
                    absolute = true;
                    parts.clear();
                },
                Component::CurDir => {},
                Component::ParentDir => {
                    parts.pop();
                },
                Component::Normal(name) => {
                    parts.push(name.to_str().unwrap().to_string());
                    if let Some(target) = self.links.get(&Disk::spell(&parts)) {
                        parts = target.split('/').filter(|s| !s.is_empty()).map(String::from).collect();
                    }
                },
                Component::Prefix(_) => return Err("prefix".to_string()),
            }
            if i + 1 < count && !self.dirs.contains(&Disk::spell(&parts)) {
                return Err(format!("not a directory: {}", Disk::spell(&parts)));
            }
        }
        if !absolute {
            return Err("relative path".to_string());
        }
        Ok(Disk::spell(&parts))
    }

    fn has(&self, path: &[u8]) -> bool {
        match self.locate(path) {
            Ok(place) => self.dirs.contains(&place) || self.files.contains_key(&place),
            Err(_) => false,
        }
    }

    fn is_dir(&self, path: &[u8]) -> bool {
        match self.locate(path) {
            Ok(place) => self.dirs.contains(&place),
            Err(_) => false,
        }
    }

    fn canonicalize(&self, path: &[u8]) -> Result<Vec<u8>, String> {
        let place = self.locate(path)?;
        if self.dirs.contains(&place) || self.files.contains_key(&place) {
            Ok(place.into_bytes())
        } else {
            Err(format!("no such file or directory: {}", place))
        }
    }

    fn create_dir(&mut self, path: &[u8]) -> Result<(), String> {
        let place = self.locate(path)?;
        if self.dirs.contains(&place) || self.files.contains_key(&place) {
            return Err(format!("exists: {}", place));
        }
        self.dirs.insert(place);
        Ok(())
    }

    fn create_dir_all(&mut self, path: &[u8]) -> Result<(), String> {
        let mut so_far = String::new();
        for part in text(path).split('/').filter(|s| !s.is_empty()) {
            so_far.push('/');
            so_far.push_str(part);
            if !self.is_dir(so_far.as_bytes()) {
                self.create_dir(so_far.as_bytes())?;
            }
        }
        Ok(())
    }

    fn link(&mut self, path: &str, target: &str) {
        self.links.insert(path.to_string(), target.to_string());
    }

    fn create_new(&mut self, path: &[u8]) -> Result<String, String> {
        let place = self.locate(path)?;
        if self.dirs.contains(&place) || self.files.contains_key(&place) {
            return Err(format!("exists: {}", place));
        }
        self.files.insert(place.clone(), (Vec::new(), self.clock));
        Ok(place)
    }

    fn truncate(&mut self, path: &[u8]) -> Result<String, String> {
        let place = self.locate(path)?;
        match self.files.get_mut(&place) {
            Some(file) => {
                *file = (Vec::new(), self.clock);
                Ok(place)
            },
            None => Err(format!("no such file: {}", place)),
        }
    }

    fn store(&mut self, place: &str, content: Vec<u8>) {
        self.files.insert(place.to_string(), (content, self.clock));
    }

    fn read(&self, path: &[u8]) -> Result<Vec<u8>, String> {
        let place = self.locate(path)?;
        match self.files.get(&place) {
            Some((content, _)) => Ok(content.clone()),
            None => Err(format!("no such file: {}", place)),
        }
    }

    fn modified(&self, path: &[u8]) -> Result<Timestamp, String> {
        let place = self.locate(path)?;
        match self.files.get(&place) {
            Some((_, modified)) => Ok(*modified),
            None => Err(format!("no such file: {}", place)),
        }
    }

    fn remove_file(&mut self, path: &[u8]) -> Result<(), String> {
        let place = self.locate(path)?;
        match self.files.remove(&place) {
            Some(_) => Ok(()),
            None => Err(format!("no such file: {}", place)),
        }
    }

    fn is_empty_dir(&self, path: &[u8]) -> Result<bool, String> {
        let place = self.locate(path)?;
        if !self.dirs.contains(&place) {
            return Err(format!("not a directory: {}", place));
        }
        let below = if place == "/" { place.clone() } else { format!("{}/", place) };
        let holds_dir = self.dirs.iter().any(|d| d != &place && d.starts_with(&below));
        let holds_file = self.files.keys().any(|f| f.starts_with(&below));
        Ok(!holds_dir && !holds_file)
    }

    fn remove_dir(&mut self, path: &[u8]) -> Result<(), String> {
        if !self.is_empty_dir(path)? {
            return Err("directory not empty".to_string());
        }
        let place = self.locate(path)?;
        self.dirs.remove(&place);
        Ok(())
    }

    fn wait(&mut self, secs: u64) {
        self.clock = self.clock.checked_add(&Duration::from_secs(secs)).unwrap();
    }
}

#[derive(Clone)]
struct World {
    disk: Rc<RefCell<Disk>>,
}

struct Root {
    world: World,
    core: Cache,
}

enum Core {
    Lazy(CacheLazyFile),
    Ready(CacheFile),
}

struct Entry {
    world: World,
    core: Core,
    producer: Producer,
}

impl World {
    fn new() -> World {
        World { disk: Rc::new(RefCell::new(Disk::new())) }
    }

    fn io<T>(result: Result<T, String>) -> Result<T, Error> {
        result.map_err(Error::IO)
    }

    /// A cache in a fresh directory of its own.
    fn cache(&self) -> Result<Root, Error> {
        let count = self.disk.borrow().dirs.len();
        let dir = format!("/tmp/fcache{}", count);
        World::io(self.disk.borrow_mut().create_dir_all(dir.as_bytes()))?;
        self.with_dir(dir.as_bytes())
    }

    fn with_dir(&self, dir: &[u8]) -> Result<Root, Error> {
        let status = {
            let disk = self.disk.borrow();
            if !disk.has(dir) {
                DirStatus::Missing
            } else if disk.is_dir(dir) {
                DirStatus::Directory
            } else {
                DirStatus::Other
            }
        };
        let opening = Cache::with_dir(dir, status)?;
        if opening.must_create() {
            World::io(self.disk.borrow_mut().create_dir_all(dir))?;
        }
        let root = World::io(self.disk.borrow().canonicalize(dir))?;
        Ok(Root { world: self.clone(), core: opening.finish(root) })
    }

    fn perform(&self, action: Action, path: &[u8], producer: &Producer) -> Result<(), Error> {
        let place = match action {
            Action::Keep => return Ok(()),
            Action::Create => World::io(self.disk.borrow_mut().create_new(path))?,
            Action::Regenerate => World::io(self.disk.borrow_mut().truncate(path))?,
        };
        let mut content = Vec::new();
        let outcome = producer(&mut content);
        self.disk.borrow_mut().store(&place, content);
        outcome.map_err(Error::Callback)
    }

    fn status(&self, path: &[u8]) -> Result<FileStatus, Error> {
        let disk = self.disk.borrow();
        if disk.has(path) {
            let modified = World::io(disk.modified(path))?;
            Ok(FileStatus::Present { modified, now: disk.clock })
        } else {
            Ok(FileStatus::Missing)
        }
    }
}

impl Root {
    fn with_refresh_interval(self, interval: Duration) -> Root {
        Root { world: self.world, core: self.core.with_refresh_interval(interval) }
    }

    fn with_default_refresh_interval(self) -> Root {
        Root { world: self.world, core: self.core.with_default_refresh_interval() }
    }

    fn path(&self) -> &[u8] {
        self.core.path()
    }

    fn refresh_interval(&self) -> Duration {
        self.core.refresh_interval()
    }

    fn lookup(&self, path: &str) -> Result<fcache::Resolved, Error> {
        let mut lookup = self.core.resolve(path.as_bytes())?;
        loop {
            lookup = match lookup {
                Lookup::Resolved(resolved) => return Ok(resolved),
                Lookup::Probe(walk) => {
                    let present = self.world.disk.borrow().has(walk.directory());
                    walk.observed(present)
                },
                Lookup::Make(step) => {
                    World::io(self.world.disk.borrow_mut().create_dir(step.directory()))?;
                    step.made()
                },
                Lookup::Check(step) => {
                    let canonical = World::io(self.world.disk.borrow().canonicalize(step.directory()))?;
                    step.advance(&canonical)?
                },
            };
        }
    }

    fn get_lazy(
        &self,
        path: &str,
        producer: impl Fn(&mut Vec<u8>) -> Result<(), String> + 'static,
    ) -> Result<Entry, Error> {
        let resolved = self.lookup(path)?;
        let present = self.world.disk.borrow().has(resolved.path());
        let core = self.core.get_lazy(resolved, present)?;
        Ok(Entry { world: self.world.clone(), core: Core::Lazy(core), producer: Box::new(producer) })
    }

    fn get(
        &self,
        path: &str,
        producer: impl Fn(&mut Vec<u8>) -> Result<(), String> + 'static,
    ) -> Result<Entry, Error> {
        let resolved = self.lookup(path)?;
        let present = self.world.disk.borrow().has(resolved.path());
        let (core, action) = self.core.get(resolved, present)?;
        let producer: Producer = Box::new(producer);
        self.world.perform(action, core.path(), &producer)?;
        Ok(Entry { world: self.world.clone(), core: Core::Ready(core), producer })
    }
}

impl Entry {
    fn path(&self) -> Vec<u8> {
        match &self.core {
            Core::Lazy(core) => core.path().clone(),
            Core::Ready(core) => core.path().clone(),
        }
    }

    fn name(&self) -> Vec<u8> {
        match &self.core {
            Core::Lazy(core) => core.name().unwrap(),
            Core::Ready(core) => core.name().unwrap(),
        }
    }

    fn on_disk(&self) -> bool {
        self.world.disk.borrow().has(&self.path())
    }

    fn refresh_interval(&self) -> Duration {
        match &self.core {
            Core::Lazy(core) => core.refresh_interval(),
            Core::Ready(core) => core.refresh_interval(),
        }
    }

    fn with_refresh_interval(self, interval: Duration) -> Entry {
        let core = match self.core {
            Core::Lazy(core) => Core::Lazy(core.with_refresh_interval(interval)),
            Core::Ready(core) => Core::Ready(core.with_refresh_interval(interval)),
        };
        Entry { world: self.world, core, producer: self.producer }
    }

    fn with_default_refresh_interval(self) -> Entry {
        let core = match self.core {
            Core::Lazy(core) => Core::Lazy(core.with_default_refresh_interval()),
            Core::Ready(core) => Core::Ready(core.with_default_refresh_interval()),
        };
        Entry { world: self.world, core, producer: self.producer }
    }

    fn is_locked(&self) -> bool {
        match &self.core {
            Core::Lazy(core) => core.is_locked(),
            Core::Ready(core) => core.is_locked(),
        }
    }

    fn is_unlocked(&self) -> bool {
        match &self.core {
            Core::Lazy(core) => core.is_unlocked(),
            Core::Ready(core) => core.is_unlocked(),
        }
    }

    fn lock(&mut self) -> Result<(), Error> {
        match &mut self.core {
            Core::Lazy(core) => core.lock(),
            Core::Ready(core) => core.lock(),
        }
    }

    fn unlock(&mut self) -> Result<(), Error> {
        match &mut self.core {
            Core::Lazy(core) => core.unlock(),
            Core::Ready(core) => core.unlock(),
        }
    }

    fn times(&self) -> Result<(Timestamp, Timestamp), Error> {
        let disk = self.world.disk.borrow();
        let modified = World::io(disk.modified(&self.path()))?;
        Ok((modified, disk.clock))
    }

    fn is_valid(&self) -> Result<bool, Error> {
        let (modified, now) = self.times()?;
        match &self.core {
            Core::Lazy(core) => core.is_valid(modified, now),
            Core::Ready(core) => core.is_valid(modified, now),
        }
    }

    fn is_invalid(&self) -> Result<bool, Error> {
        let (modified, now) = self.times()?;
        match &self.core {
            Core::Lazy(core) => core.is_invalid(modified, now),
            Core::Ready(core) => core.is_invalid(modified, now),
        }
    }

    fn valid_until(&self) -> Result<Timestamp, Error> {
        let (modified, _) = self.times()?;
        assert!(modified.checked_add(&self.refresh_interval()).is_some());
        Ok(match &self.core {
            Core::Lazy(core) => core.valid_until(modified),
            Core::Ready(core) => core.valid_until(modified),
        })
    }

    fn create(&self) -> Result<Vec<u8>, Error> {
        let action = match &self.core {
            Core::Lazy(core) => core.create(),
            Core::Ready(_) => Action::Create,
        };
        self.world.perform(action, &self.path(), &self.producer)?;
        World::io(self.world.disk.borrow().read(&self.path()))
    }

    fn open(&self) -> Result<Vec<u8>, Error> {
        let status = self.world.status(&self.path())?;
        let action = match &self.core {
            Core::Lazy(core) => core.open(status)?,
            Core::Ready(core) => core.open(status)?,
        };
        self.world.perform(action, &self.path(), &self.producer)?;
        World::io(self.world.disk.borrow().read(&self.path()))
    }

    fn refresh(&self) -> Result<(), Error> {
        let (modified, now) = self.times()?;
        let action = match &self.core {
            Core::Lazy(core) => core.refresh(modified, now)?,
            Core::Ready(core) => core.refresh(modified, now)?,
        };
        self.world.perform(action, &self.path(), &self.producer)
    }

    fn force_refresh(&self) -> Result<(), Error> {
        let action = match &self.core {
            Core::Lazy(core) => core.force_refresh(),
            Core::Ready(core) => core.force_refresh(),
        };
        self.world.perform(action, &self.path(), &self.producer)
    }

    fn remove(&self) -> Result<(), Error> {
        let present = self.on_disk();
        let mut removal = match &self.core {
            Core::Lazy(core) => core.remove(present),
            Core::Ready(core) => core.remove(present),
        };
        loop {
            removal = match removal {
                Removal::Done => return Ok(()),
                Removal::DeleteFile(step) => {
                    World::io(self.world.disk.borrow_mut().remove_file(step.path()))?;
                    step.deleted()
                },
                Removal::Inspect(step) => {
                    let empty = World::io(self.world.disk.borrow().is_empty_dir(step.directory()))?;
                    step.observed(empty)
                },
                Removal::DeleteDirectory(step) => {
                    World::io(self.world.disk.borrow_mut().remove_dir(step.directory()))?;
                    step.deleted()
                },
            };
        }
    }

    fn init(self) -> Result<Entry, Error> {
        let present = self.on_disk();
        match self.core {
            Core::Lazy(core) => {
                let (core, action) = core.init(present);
                self.world.perform(action, core.path(), &self.producer)?;
                Ok(Entry { world: self.world, core: Core::Ready(core), producer: self.producer })
            },
            Core::Ready(core) => {
                Ok(Entry { world: self.world, core: Core::Ready(core), producer: self.producer })
            },
        }
    }
}

fn nothing(_: &mut Vec<u8>) -> Result<(), String> {
    Ok(())
}

fn counter() -> impl Fn(&mut Vec<u8>) -> Result<(), String> {
    let runs = Cell::new(0usize);
    move |file: &mut Vec<u8>| {
        file.extend_from_slice(format!("{}", runs.get()).as_bytes());
        runs.set(runs.get() + 1);
        Ok(())
    }
}

fn ends_with(path: &[u8], name: &[u8]) -> bool {
    Path::new(text(path)).ends_with(text(name))
}

fn parent(path: &[u8]) -> Option<Vec<u8>> {
    Path::new(text(path)).parent().map(|p| p.to_str().unwrap().as_bytes().to_vec())
}

#[test]
fn test_cache_new() {
    let world = World::new();
    let cache = world.cache().unwrap();

    assert!(world.disk.borrow().has(cache.path()));
    assert!(world.disk.borrow().is_dir(cache.path()));

    assert_eq!(cache.refresh_interval(), default_refresh_interval());
    assert_eq!(cache.refresh_interval(), Duration::from_secs(5));
}

#[test]
fn test_cache_with_dir() {
    let world = World::new();
    world.disk.borrow_mut().create_dir_all(b"/tmp/chosen").unwrap();

    let cache = world.with_dir(b"/tmp/chosen").unwrap();

    assert_eq!(cache.path(), b"/tmp/chosen");
    assert!(world.disk.borrow().has(cache.path()));

    assert_eq!(cache.refresh_interval(), default_refresh_interval());
}

#[test]
fn test_cache_with_file() {
    let world = World::new();
    world.disk.borrow_mut().create_dir_all(b"/tmp").unwrap();
    world.disk.borrow_mut().create_new(b"/tmp/custom_cache_dir").unwrap();

    assert!(
        matches!(world.with_dir(b"/tmp/custom_cache_dir"), Err(Error::NotADirectory { .. })),
        "Should return an error when providing a file path instead of directory"
    );
}

#[test]
fn test_cache_with_refresh_interval() {
    let refresh_interval = Duration::from_secs(10);

    let cache = World::new().cache().unwrap().with_refresh_interval(refresh_interval);

    assert_eq!(cache.refresh_interval(), refresh_interval);
}

#[test]
fn test_cache_with_default_refresh_interval() {
    let refresh_interval = Duration::from_secs(30);

    let cache = World::new()
        .cache()
        .unwrap()
        .with_refresh_interval(refresh_interval)
        .with_default_refresh_interval();

    assert_eq!(cache.refresh_interval(), default_refresh_interval());
}

#[test]
fn test_get_file() {
    let cache = World::new().cache().unwrap();

    let cache_file = cache
        .get("file.txt", |file| {
            file.extend_from_slice(TEST_CONTENT);
            Ok(())
        })
        .unwrap();

    assert_eq!(cache_file.name(), b"file.txt");
    assert!(ends_with(&cache_file.path(), &cache_file.name()));
    assert!(cache_file.on_disk());

    let content = cache_file.open().unwrap();
    assert_eq!(content, TEST_CONTENT, "File content does not match");
}

#[test]
fn test_get_lazy_file() {
    let cache = World::new().cache().unwrap();

    let cache_file = cache
        .get_lazy("file.txt", |file| {
            file.extend_from_slice(TEST_CONTENT);
            Ok(())
        })
        .unwrap();

    assert_eq!(cache_file.name(), b"file.txt");
    assert!(ends_with(&cache_file.path(), &cache_file.name()));
    assert!(!cache_file.on_disk());

    let content = cache_file.open().unwrap();

    assert!(cache_file.on_disk());
    assert_eq!(content, TEST_CONTENT, "File content does not match");
}

#[test]
fn test_double_file_get() {
    let cache = World::new().cache().unwrap();

    let _ = cache.get("file.txt", nothing).unwrap();

    assert!(
        matches!(cache.get("file.txt", nothing), Err(Error::FileAlreadyExists { .. })),
        "Should return an error when trying to create the same file twice"
    );
}

#[test]
fn test_file_empty_name() {
    let cache = World::new().cache().unwrap();

    assert!(
        matches!(cache.get("", nothing), Err(Error::InvalidPath { .. })),
        "Should return an error when trying to create a file with empty name"
    );
    assert!(
        matches!(cache.get(" ", nothing), Err(Error::InvalidPath { .. })),
        "Should return an error when trying to create a file with empty name"
    );
    assert!(
        matches!(cache.get("\t", nothing), Err(Error::InvalidPath { .. })),
        "Should return an error when trying to create a file with empty name"
    );
    assert!(
        matches!(cache.get("\n", nothing), Err(Error::InvalidPath { .. })),
        "Should return an error when trying to create a file with empty name"
    );
}

#[test]
fn test_file_dir_name() {
    let cache = World::new().cache().unwrap();

    assert!(
        matches!(cache.get("dir/", nothing), Err(Error::InvalidPath { .. })),
        "Should return an error when trying to create a file with a trailing slash"
    );
}

#[test]
fn test_file_out_of_cache() {
    let cache = World::new().cache().unwrap();

    assert!(
        matches!(cache.get("../file.txt", nothing), Err(Error::PathTraversal { .. })),
        "Should return an error when trying to create a file outside the cache"
    );
    assert!(
        matches!(cache.get("a/../../file.txt", nothing), Err(Error::PathTraversal { .. })),
        "Should return an error when trying to create a file outside the cache"
    );
    assert!(
        matches!(
            cache.get("a/b/../c/../../../d/file.txt", nothing),
            Err(Error::PathTraversal { .. })
        ),
        "Should return an error when trying to create a file outside the cache"
    );
}

#[test]
fn test_file_callback_error() {
    let cache = World::new().cache().unwrap();

    assert!(
        matches!(
            cache.get("file.txt", |_| {
                let _ = "fail".parse::<i32>().map_err(|e| e.to_string())?;
                Ok(())
            }),
            Err(Error::Callback { .. })
        ),
        "Should return an error when callback fails"
    );
}

#[test]
fn test_file_removal() {
    let cache = World::new().cache().unwrap();

    let cache_file = cache.get("file.txt", nothing).unwrap();
    assert!(cache_file.on_disk());

    cache_file.remove().unwrap();

    assert!(!cache_file.on_disk());
}

#[test]
fn test_nested_file_removal() {
    let world = World::new();
    let cache = world.cache().unwrap();

    let cache_file = cache.get("a/b/c/d/file.txt", nothing).unwrap();

    assert_eq!(cache_file.name(), b"file.txt");
    assert!(ends_with(&cache_file.path(), &cache_file.name()));

    let _ = cache.get("a/b/c/file.txt", nothing).unwrap();

    assert!(cache_file.on_disk());

    cache_file.remove().unwrap();

    assert!(!cache_file.on_disk());
    assert_eq!(
        parent(&cache_file.path()).map(|parent| world.disk.borrow().has(&parent)),
        Some(false),
        "Parent directory should not exist"
    );
    assert_eq!(
        parent(&cache_file.path())
            .and_then(|parent| self::parent(&parent))
            .map(|parent| world.disk.borrow().has(&parent)),
        Some(true),
        "Grandparent directory should exist"
    );
}

#[test]
fn test_large_file_content() {
    let cache = World::new().cache().unwrap();

    let cache_file = cache
        .get("file.txt", |file| {
            file.extend_from_slice(&large_content());
            Ok(())
        })
        .unwrap();

    assert!(cache_file.on_disk());

    let content = cache_file.open().unwrap();
    assert_eq!(content, large_content(), "File content does not match");
}

#[test]
fn test_file_with_refresh_interval() {
    let refresh_interval = Duration::from_secs(10);
    let cache = World::new().cache().unwrap();

    let cache_file = cache.get("file.txt", nothing).unwrap().with_refresh_interval(refresh_interval);

    assert_eq!(cache_file.refresh_interval(), refresh_interval, "Refresh interval was not updated");
}

#[test]
fn test_file_with_default_refresh_interval() {
    let refresh_interval = Duration::from_secs(10);
    let cache = World::new().cache().unwrap();

    let cache_file = cache.get("file.txt", nothing).unwrap().with_refresh_interval(refresh_interval);
    let cache_file = cache_file.with_default_refresh_interval();

    assert_eq!(
        cache_file.refresh_interval(),
        cache.refresh_interval(),
        "Refresh interval was not set to default"
    );
}

#[test]
fn test_new_file_unlocked_by_default() {
    let cache = World::new().cache().unwrap();

    let cache_file = cache.get("file.txt", nothing).unwrap();

    assert!(!cache_file.is_locked(), "File should be initially unlocked");
    assert!(cache_file.is_unlocked(), "File should be initially unlocked");
}

#[test]
fn test_file_locking() {
    let cache = World::new().cache().unwrap();

    let mut cache_file = cache.get("file.txt", nothing).unwrap();

    cache_file.lock().unwrap();

    assert!(cache_file.is_locked(), "File should be locked");
    assert!(!cache_file.is_unlocked(), "File should be locked");

    cache_file.unlock().unwrap();

    assert!(!cache_file.is_locked(), "File should be unlocked");
    assert!(cache_file.is_unlocked(), "File should be unlocked");
}

#[test]
fn test_file_auto_refresh() {
    let cache = World::new().cache().unwrap().with_refresh_interval(Duration::zero());

    let cache_file = cache.get_lazy("file.txt", counter()).unwrap();

    assert_eq!(cache_file.open().unwrap(), b"0");
    assert_eq!(cache_file.open().unwrap(), b"1");
}

#[test]
fn test_file_manual_refresh() {
    let cache = World::new().cache().unwrap().with_refresh_interval(Duration::max());

    let cache_file = cache.get("file.txt", counter()).unwrap();

    assert_eq!(cache_file.open().unwrap(), b"0");

    let cache_file = cache_file.with_refresh_interval(Duration::zero());
    cache_file.refresh().unwrap();
    let cache_file = cache_file.with_refresh_interval(Duration::max());

    assert_eq!(cache_file.open().unwrap(), b"1");
}

#[test]
fn test_file_force_refresh() {
    let cache = World::new().cache().unwrap().with_refresh_interval(Duration::max());

    let cache_file = cache.get("file.txt", counter()).unwrap();

    assert_eq!(cache_file.open().unwrap(), b"0");

    cache_file.force_refresh().unwrap();

    assert_eq!(cache_file.open().unwrap(), b"1");
}

#[test]
fn entry_is_valid_once_created_and_stale_after_its_interval() {
    let world = World::new();
    let cache = world.cache().unwrap().with_refresh_interval(Duration::from_secs(10));

    let cache_file = cache.get("file.txt", nothing).unwrap();
    assert_eq!(cache_file.is_valid().unwrap(), true);
    assert_eq!(cache_file.is_invalid().unwrap(), false);

    world.disk.borrow_mut().wait(9);
    assert_eq!(cache_file.is_valid().unwrap(), true);

    world.disk.borrow_mut().wait(1);
    assert_eq!(cache_file.is_valid().unwrap(), false);
    assert_eq!(cache_file.is_invalid().unwrap(), true);

    world.disk.borrow_mut().wait(1_000);
    assert_eq!(cache_file.is_invalid().unwrap(), true);
}

#[test]
fn entry_with_the_empty_interval_is_stale_at_once() {
    let cache = World::new().cache().unwrap().with_refresh_interval(Duration::zero());

    let cache_file = cache.get("file.txt", nothing).unwrap();

    assert_eq!(cache_file.is_valid().unwrap(), false);
    assert_eq!(cache_file.is_invalid().unwrap(), true);
}

#[test]
fn entry_is_valid_until_its_interval_after_the_last_write() {
    let world = World::new();
    let cache = world.cache().unwrap().with_refresh_interval(Duration::from_secs(10));

    let cache_file = cache.get("file.txt", nothing).unwrap();
    assert_eq!(cache_file.valid_until().unwrap(), at(1_000_010));

    world.disk.borrow_mut().wait(3);
    assert_eq!(cache_file.valid_until().unwrap(), at(1_000_010));
    cache_file.force_refresh().unwrap();
    assert_eq!(cache_file.valid_until().unwrap(), at(1_000_013));
}

#[test]
fn open_runs_the_producer_once_while_the_file_is_valid() {
    let world = World::new();
    let cache = world.cache().unwrap().with_refresh_interval(Duration::from_secs(10));

    let cache_file = cache.get_lazy("file.txt", counter()).unwrap();
    assert!(!cache_file.on_disk());

    assert_eq!(cache_file.open().unwrap(), b"0");
    assert_eq!(cache_file.open().unwrap(), b"0");
    world.disk.borrow_mut().wait(9);
    assert_eq!(cache_file.open().unwrap(), b"0");

    world.disk.borrow_mut().wait(1);
    assert_eq!(cache_file.open().unwrap(), b"1");
    assert_eq!(cache_file.open().unwrap(), b"1");
}

#[test]
fn force_refresh_runs_the_producer_right_after_creation() {
    let cache = World::new().cache().unwrap();

    let cache_file = cache.get("file.txt", counter()).unwrap();
    assert_eq!(cache_file.is_valid().unwrap(), true);

    cache_file.force_refresh().unwrap();
    assert_eq!(cache_file.open().unwrap(), b"1");
    cache_file.force_refresh().unwrap();
    cache_file.force_refresh().unwrap();
    assert_eq!(cache_file.open().unwrap(), b"3");
}

#[test]
fn refresh_leaves_a_valid_file_alone() {
    let world = World::new();
    let cache = world.cache().unwrap().with_refresh_interval(Duration::from_secs(10));

    let cache_file = cache.get("file.txt", counter()).unwrap();
    cache_file.refresh().unwrap();
    assert_eq!(cache_file.open().unwrap(), b"0");

    world.disk.borrow_mut().wait(10);
    cache_file.refresh().unwrap();
    cache_file.refresh().unwrap();
    assert_eq!(cache_file.open().unwrap(), b"1");
}

#[test]
fn plain_opens_never_refresh_under_the_longest_interval() {
    let world = World::new();
    let cache = world.cache().unwrap().with_refresh_interval(Duration::max());

    let cache_file = cache.get("file.txt", counter()).unwrap();
    assert_eq!(cache_file.open().unwrap(), b"0");
    world.disk.borrow_mut().wait(1_000_000_000);
    assert_eq!(cache_file.open().unwrap(), b"0");
    assert_eq!(cache_file.open().unwrap(), b"0");

    cache_file.force_refresh().unwrap();
    assert_eq!(cache_file.open().unwrap(), b"1");
    assert_eq!(cache_file.open().unwrap(), b"1");
}

#[test]
fn lock_does_not_hold_a_refresh_back() {
    let cache = World::new().cache().unwrap().with_refresh_interval(Duration::zero());

    let mut cache_file = cache.get("file.txt", counter()).unwrap();
    cache_file.lock().unwrap();

    assert_eq!(cache_file.open().unwrap(), b"1");
    cache_file.force_refresh().unwrap();
    assert_eq!(cache_file.open().unwrap(), b"3");
    assert!(cache_file.is_locked());
}

#[test]
fn lock_and_unlock_fail_when_repeated() {
    let cache = World::new().cache().unwrap();
    let mut cache_file = cache.get_lazy("file.txt", nothing).unwrap();

    assert!(matches!(cache_file.unlock(), Err(Error::FileAlreadyUnlocked)));
    cache_file.lock().unwrap();
    assert!(matches!(cache_file.lock(), Err(Error::FileAlreadyLocked)));
    cache_file.unlock().unwrap();
    assert!(matches!(cache_file.unlock(), Err(Error::FileAlreadyUnlocked)));
}

#[test]
fn removal_prunes_empty_directories_and_spares_populated_ones() {
    let world = World::new();
    let cache = world.cache().unwrap();
    let root = text(cache.path()).to_string();

    let cache_file = cache.get("a/b/c/file.txt", nothing).unwrap();
    let sibling = cache.get("a/sibling.txt", nothing).unwrap();

    cache_file.remove().unwrap();

    let disk = world.disk.borrow();
    assert!(!disk.has(format!("{}/a/b/c/file.txt", root).as_bytes()));
    assert!(!disk.has(format!("{}/a/b/c", root).as_bytes()));
    assert!(!disk.has(format!("{}/a/b", root).as_bytes()));
    assert!(disk.is_dir(format!("{}/a", root).as_bytes()));
    assert!(sibling.on_disk());
    assert!(disk.is_dir(root.as_bytes()));
}

#[test]
fn removal_of_the_last_entry_leaves_the_empty_root() {
    let world = World::new();
    let cache = world.cache().unwrap();

    let cache_file = cache.get("a/b/c/file.txt", nothing).unwrap();
    cache_file.remove().unwrap();

    assert!(world.disk.borrow().is_dir(cache.path()));
    assert_eq!(world.disk.borrow().is_empty_dir(cache.path()), Ok(true));
    assert!(world.disk.borrow().is_dir(b"/tmp"));
}

#[test]
fn removal_of_an_entry_never_created_does_nothing() {
    let world = World::new();
    let cache = world.cache().unwrap();

    let cache_file = cache.get_lazy("a/file.txt", nothing).unwrap();
    cache_file.remove().unwrap();

    let mut inside = cache.path().to_vec();
    inside.extend_from_slice(b"/a");
    assert!(world.disk.borrow().is_dir(&inside));
}

#[test]
fn traversal_leaves_the_directories_made_on_the_way() {
    let world = World::new();
    let cache = world.cache().unwrap();

    assert!(matches!(cache.get("made/../../file.txt", nothing), Err(Error::PathTraversal { .. })));

    let mut inside = cache.path().to_vec();
    inside.extend_from_slice(b"/made");
    assert!(world.disk.borrow().is_dir(&inside));
}

#[test]
fn traversal_through_a_link_is_found() {
    let world = World::new();
    let cache = world.cache().unwrap();
    world.disk.borrow_mut().create_dir_all(b"/elsewhere").unwrap();
    world.disk.borrow_mut().link(&format!("{}/out", text(cache.path())), "/elsewhere");

    match cache.get_lazy("out/file.txt", nothing) {
        Err(Error::PathTraversal { path, cache_dir }) => {
            assert_eq!(text(&path), format!("{}/out", text(cache.path())));
            assert_eq!(cache_dir, cache.path());
        },
        _ => panic!("the link was followed"),
    }
    assert!(matches!(cache.get("a/../out/b/file.txt", nothing), Err(Error::PathTraversal { .. })));
}

#[test]
fn link_within_the_cache_is_followed() {
    let world = World::new();
    let cache = world.cache().unwrap();
    let root = text(cache.path()).to_string();
    world.disk.borrow_mut().create_dir_all(format!("{}/real", root).as_bytes()).unwrap();
    world.disk.borrow_mut().link(&format!("{}/alias", root), &format!("{}/real", root));

    let cache_file = cache.get("alias/file.txt", counter()).unwrap();

    assert_eq!(text(&cache_file.path()), format!("{}/alias/file.txt", root));
    assert!(world.disk.borrow().has(format!("{}/real/file.txt", root).as_bytes()));
    assert_eq!(cache_file.open().unwrap(), b"0");
}

#[test]
fn parent_steps_within_the_cache_are_allowed() {
    let world = World::new();
    let cache = world.cache().unwrap();

    let cache_file = cache.get("a/b/../c/file.txt", nothing).unwrap();

    let root = text(cache.path()).to_string();
    assert_eq!(text(&cache_file.path()), format!("{}/a/b/../c/file.txt", root));
    assert!(world.disk.borrow().has(format!("{}/a/c/file.txt", root).as_bytes()));
    assert!(world.disk.borrow().is_dir(format!("{}/a/b", root).as_bytes()));
}

#[test]
fn rooted_path_is_outside_the_cache() {
    let cache = World::new().cache().unwrap();
    assert!(matches!(cache.get("/etc/passwd", nothing), Err(Error::PathTraversal { .. })));
    assert!(matches!(cache.get_lazy("/file.txt", nothing), Err(Error::PathTraversal { .. })));
}

#[test]
fn lazy_get_refuses_what_get_refuses() {
    let cache = World::new().cache().unwrap();
    for path in ["", " ", "\t", "\n", "dir/", ".", ".."] {
        assert!(matches!(cache.get_lazy(path, nothing), Err(Error::InvalidPath { .. })), "{:?}", path);
    }
    for path in ["../file.txt", "a/../../file.txt", "a/b/../c/../../../d/file.txt"] {
        assert!(matches!(cache.get_lazy(path, nothing), Err(Error::PathTraversal { .. })), "{:?}", path);
    }
}

#[test]
fn lazy_entries_share_a_path_until_the_file_is_there() {
    let cache = World::new().cache().unwrap();

    let first = cache.get_lazy("file.txt", counter()).unwrap();
    let second = cache.get_lazy("file.txt", nothing).unwrap();
    assert_eq!(first.path(), second.path());

    assert_eq!(first.open().unwrap(), b"0");
    assert!(matches!(cache.get_lazy("file.txt", nothing), Err(Error::FileAlreadyExists { .. })));
    assert!(matches!(cache.get("file.txt", nothing), Err(Error::FileAlreadyExists { .. })));
    assert!(matches!(second.create(), Err(Error::IO(_))));
}

#[test]
fn lazy_entry_initializes_into_a_file_on_disk() {
    let cache = World::new().cache().unwrap();

    let lazy = cache.get_lazy("a/file.txt", counter()).unwrap().with_refresh_interval(Duration::max());
    assert!(!lazy.on_disk());
    let mut file = lazy.init().unwrap();
    assert!(file.on_disk());
    assert_eq!(file.refresh_interval(), Duration::max());
    assert_eq!(file.open().unwrap(), b"0");
    file.lock().unwrap();
    assert!(file.is_locked());
}

#[test]
fn failed_producer_leaves_its_file_behind() {
    let cache = World::new().cache().unwrap();

    let failed = cache.get("file.txt", |file| {
        file.extend_from_slice(b"half");
        Err("out of ideas".to_string())
    });
    match failed {
        Err(Error::Callback(message)) => assert_eq!(message, "out of ideas"),
        _ => panic!("the producer did not fail"),
    }

    let mut inside = cache.path().to_vec();
    inside.extend_from_slice(b"/file.txt");
    assert_eq!(cache.world.disk.borrow().read(&inside).unwrap(), b"half");
    assert!(matches!(cache.get("file.txt", nothing), Err(Error::FileAlreadyExists { .. })));
}

#[test]
fn validity_of_a_missing_file_is_an_io_error() {
    let cache = World::new().cache().unwrap();

    let cache_file = cache.get_lazy("file.txt", nothing).unwrap();

    assert!(matches!(cache_file.is_valid(), Err(Error::IO(_))));
    assert!(matches!(cache_file.is_invalid(), Err(Error::IO(_))));
    assert!(matches!(cache_file.valid_until(), Err(Error::IO(_))));
    assert!(matches!(cache_file.refresh(), Err(Error::IO(_))));
    assert!(matches!(cache_file.force_refresh(), Err(Error::IO(_))));
}

#[test]
fn file_from_the_future_is_a_clock_error() {
    let world = World::new();
    let cache = world.cache().unwrap();

    let cache_file = cache.get("file.txt", counter()).unwrap();
    world.disk.borrow_mut().clock = at(999_990);

    match cache_file.is_valid() {
        Err(Error::SystemTime(ahead)) => assert_eq!(ahead, Duration::from_secs(10)),
        _ => panic!("the clock was trusted"),
    }
    assert!(matches!(cache_file.open(), Err(Error::SystemTime(_))));
    assert!(matches!(cache_file.refresh(), Err(Error::SystemTime(_))));
    cache_file.force_refresh().unwrap();
    assert_eq!(cache_file.open().unwrap(), b"1");
}

#[test]
fn cache_in_a_missing_directory_creates_it() {
    let world = World::new();

    let cache = world.with_dir(b"/var/lib/app/cache").unwrap();

    assert_eq!(cache.path(), b"/var/lib/app/cache");
    assert!(world.disk.borrow().is_dir(b"/var/lib/app/cache"));
}

#[test]
fn cache_root_is_the_canonical_directory() {
    let world = World::new();
    world.disk.borrow_mut().create_dir_all(b"/data/real").unwrap();
    world.disk.borrow_mut().link("/data/alias", "/data/real");

    let cache = world.with_dir(b"/data/alias/../alias").unwrap();
    assert_eq!(cache.path(), b"/data/real");

    let cache_file = cache.get("a/file.txt", nothing).unwrap();
    assert_eq!(cache_file.path(), b"/data/real/a/file.txt");
}

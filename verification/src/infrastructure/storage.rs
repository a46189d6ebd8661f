//! The layout of media on disk: every object lives under the storage root,
//! at `<root>/<account>/<media>/...`, and is named in the database by its
//! path relative to the root.
use vstd::prelude::*;

use crate::config::StorageConfig;
use crate::path::{
    all_normal, components, is_absolute, is_relative_normal, join, join_path, lemma_join_components,
    lemma_relative_normal_contains, path_components, Component,
};
use crate::text::{chars_of, push_str, string_of};

verus! {

/// Why a storage path was refused.
#[derive(Clone, Copy, Debug, PartialEq, Eq, Structural)]
pub enum StorageError {
    /// The object is not below the storage root.
    OutsideRoot,
    /// The relative path is empty, absolute, or has a component other than a
    /// plain name.
    InvalidRelativePath,
}

impl StorageError {
    /// The description of the error.
    pub fn message(self) -> (m: &'static str)
        ensures
            m@ == (match self {
                StorageError::OutsideRoot => "object is outside the storage root"@,
                StorageError::InvalidRelativePath => "invalid relative storage path"@,
            }),
    {
        match self {
            StorageError::OutsideRoot => "object is outside the storage root",
            StorageError::InvalidRelativePath => "invalid relative storage path",
        }
    }
}

/// The path `Path::strip_prefix` leaves of `path` once the components of
/// `base` are removed from its front, as text; `None` when `base` is not a
/// prefix of `path`.
pub uninterp spec fn stripped_path(path: Seq<char>, base: Seq<char>) -> Option<Seq<char>>;

/// Removes the leading components `base` from `path` with
/// `std::path::Path::strip_prefix`; the contract claims that the result is
/// that function's, named by `stripped_path`, and, as its documentation
/// states, that it fails exactly when `base` is not a prefix of `path`
/// (`Path::starts_with`, which compares whole components), and that the path
/// left, joined onto `base`, is `path` again (paths being equal when their
/// components are). What text the path left is made of, beyond its
/// components, is not stated.
#[verifier::external_body]
fn strip_path_prefix(path: &str, base: &str) -> (r: Option<String>)
    ensures
        crate::text::opt_text(r) == stripped_path(path@, base@),
        r is Some <==> components(base@).is_prefix_of(components(path@)),
        r matches Some(rest) ==> components(join(base@, rest@)) == components(path@),
{
    match std::path::Path::new(path).strip_prefix(base) {
        Ok(rest) => Some(rest.to_string_lossy().into_owned()),
        Err(_) => None,
    }
}

/// A relative object path: not empty, not absolute, and made of plain names
/// only (no `..`, no root).
pub fn validate_relative_path(path: &str) -> (r: Result<(), StorageError>)
    ensures
        r is Ok <==> is_relative_normal(path@),
        r is Err ==> r == Err::<(), StorageError>(StorageError::InvalidRelativePath),
{
    let v = chars_of(path);
    if v.len() == 0 || v[0] == '/' {
        return Err(StorageError::InvalidRelativePath);
    }
    let parts = path_components(path);
    let ghost views = parts@.map_values(|c: Component| c.view());
    let mut i: usize = 0;
    while i < parts.len()
        invariant
            i <= parts@.len(),
            views == parts@.map_values(|c: Component| c.view()),
            views == components(path@),
            forall|k: int| 0 <= k < i ==> crate::path::is_normal(#[trigger] views[k]),
        decreases parts@.len() - i,
    {
        match &parts[i] {
            Component::Normal(_) => {},
            _ => {
                assert(!crate::path::is_normal(views[i as int]));
                return Err(StorageError::InvalidRelativePath);
            },
        }
        i = i + 1;
    }
    Ok(())
}

/// `c` with a backslash replaced by a forward slash.
pub open spec fn forward_slash(c: char) -> char {
    if c == '\\' {
        '/'
    } else {
        c
    }
}

/// The media store.
#[derive(Clone, Debug)]
pub struct Storage {
    config: StorageConfig,
}

impl Storage {
    /// The storage settings.
    pub closed spec fn settings(&self) -> StorageConfig {
        self.config
    }

    /// A store over the directories of `config` (which the caller creates).
    pub fn new(config: StorageConfig) -> (s: Storage)
        ensures
            s.settings() == config,
    {
        Storage { config }
    }

    /// `<temporary root>/<identifier>`.
    pub fn temporary_file(&self, identifier: &str) -> (r: String)
        ensures
            r@ == join(self.settings().temporary_root@, identifier@),
    {
        join_path(self.config.temporary_root.as_str(), identifier)
    }

    /// `<root>/<account>/<media>`.
    pub fn media_root(&self, account_id: &str, media_id: &str) -> (r: String)
        ensures
            r@ == join(join(self.settings().root@, account_id@), media_id@),
    {
        let account = join_path(self.config.root.as_str(), account_id);
        join_path(account.as_str(), media_id)
    }

    /// The directory of a media's uploaded original.
    pub fn original_directory(&self, account_id: &str, media_id: &str) -> (r: String)
        ensures
            r@ == join(
                join(join(self.settings().root@, account_id@), media_id@),
                self.settings().original_directory_name@,
            ),
    {
        let media = self.media_root(account_id, media_id);
        join_path(media.as_str(), self.config.original_directory_name.as_str())
    }

    /// The directory of a media's HLS output.
    pub fn stream_directory(&self, account_id: &str, media_id: &str) -> (r: String)
        ensures
            r@ == join(
                join(join(self.settings().root@, account_id@), media_id@),
                self.settings().stream_directory_name@,
            ),
    {
        let media = self.media_root(account_id, media_id);
        join_path(media.as_str(), self.config.stream_directory_name.as_str())
    }

    /// `<temporary root>/stream-<job>`: where a transcode job stages its output.
    pub fn stream_staging_directory(&self, job_id: &str) -> (r: String)
        ensures
            r@ == join(self.settings().temporary_root@, "stream-"@ + job_id@),
    {
        let mut name = "stream-".to_owned();
        push_str(&mut name, job_id);
        join_path(self.config.temporary_root.as_str(), name.as_str())
    }

    /// Where a deleted media is kept when deleted media is preserved:
    /// `<root>/<trash>/<account>/<media>`.
    pub fn trash_destination(&self, account_id: &str, media_id: &str) -> (r: String)
        ensures
            r@ == join(
                join(join(self.settings().root@, self.settings().trash_directory_name@), account_id@),
                media_id@,
            ),
    {
        let trash = join_path(self.config.root.as_str(), self.config.trash_directory_name.as_str());
        let account = join_path(trash.as_str(), account_id);
        join_path(account.as_str(), media_id)
    }

    /// The database name of an object: its path relative to the storage root,
    /// which must be a valid relative path, with `\` written as `/`.
    pub fn object_key(&self, absolute_path: &str) -> (r: Result<String, StorageError>)
        ensures
            match stripped_path(absolute_path@, self.settings().root@) {
                None => r == Err::<String, StorageError>(StorageError::OutsideRoot),
                Some(rest) => if is_relative_normal(rest) {
                    &&& r matches Ok(key) && key@ == rest.map_values(|c: char| forward_slash(c))
                    &&& (forall|k: int| 0 <= k < rest.len() ==> #[trigger] rest[k] != '\\') ==> components(
                        join(self.settings().root@, r->Ok_0@),
                    ) == components(absolute_path@)
                } else {
                    r == Err::<String, StorageError>(StorageError::InvalidRelativePath)
                },
            },
            (r == Err::<String, StorageError>(StorageError::OutsideRoot)) <==> !components(
                self.settings().root@,
            ).is_prefix_of(components(absolute_path@)),
            forall|key: Seq<char>|
                is_relative_normal(key) && !key.contains('\\') && absolute_path@ == #[trigger] join(
                    self.settings().root@,
                    key,
                ) ==> r != Err::<String, StorageError>(StorageError::OutsideRoot) && (r matches Ok(k)
                    ==> components(k@) == components(key) && !k@.contains('\\')),
    {
        let ghost root = self.config.root@;
        proof {
            assert forall|key: Seq<char>|
                is_relative_normal(key) && absolute_path@ == #[trigger] join(root, key) implies components(
                root,
            ).is_prefix_of(components(absolute_path@)) by {
                lemma_join_components(root, key);
                assert(components(root) =~= components(absolute_path@).subrange(0, components(root).len() as int));
            }
        }
        let rest = match strip_path_prefix(absolute_path, self.config.root.as_str()) {
            Some(rest) => rest,
            None => return Err(StorageError::OutsideRoot),
        };
        if let Err(e) = validate_relative_path(rest.as_str()) {
            return Err(e);
        }
        let v = chars_of(rest.as_str());
        let ghost mapped = v@.map_values(|c: char| forward_slash(c));
        let mut out: Vec<char> = Vec::new();
        let mut i: usize = 0;
        while i < v.len()
            invariant
                i <= v@.len(),
                mapped == v@.map_values(|c: char| forward_slash(c)),
                out@ == mapped.take(i as int),
            decreases v@.len() - i,
        {
            let c = v[i];
            out.push(if c == '\\' { '/' } else { c });
            assert(mapped.take(i + 1) == mapped.take(i as int).push(mapped[i as int]));
            i = i + 1;
        }
        assert(mapped.take(mapped.len() as int) == mapped);
        proof {
            if forall|k: int| 0 <= k < v@.len() ==> #[trigger] v@[k] != '\\' {
                assert(mapped =~= v@);
            }
            assert forall|key: Seq<char>|
                is_relative_normal(key) && !key.contains('\\') && absolute_path@ == #[trigger] join(
                    root,
                    key,
                ) implies components(out@) == components(key) && !out@.contains('\\') by {
                lemma_join_components(root, key);
                lemma_join_components(root, v@);
                let n = components(root).len() as int;
                assert(components(v@) =~= components(absolute_path@).skip(n));
                assert(components(key) =~= components(absolute_path@).skip(n));
                lemma_relative_normal_contains(key, '\\');
                lemma_relative_normal_contains(v@, '\\');
                assert forall|k: int| 0 <= k < v@.len() implies #[trigger] v@[k] != '\\' by {
                    if v@[k] == '\\' {
                        assert(v@.contains('\\'));
                    }
                }
                assert(mapped =~= v@);
            }
        }
        Ok(string_of(&out))
    }

    /// The absolute path of the object named `object_key`, which must be a
    /// valid relative path.
    pub fn object_path(&self, object_key: &str) -> (r: Result<String, StorageError>)
        ensures
            is_relative_normal(object_key@) ==> (r matches Ok(p) && p@ == join(
                self.settings().root@,
                object_key@,
            )),
            !is_relative_normal(object_key@) ==> r == Err::<String, StorageError>(
                StorageError::InvalidRelativePath,
            ),
    {
        if let Err(e) = validate_relative_path(object_key) {
            return Err(e);
        }
        Ok(join_path(self.config.root.as_str(), object_key))
    }
}

} // verus!

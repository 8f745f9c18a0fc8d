//! The registry: applications composed under a root, with the lookup
//! operations the HTTP surface serves from.

use vstd::prelude::*;
use vstd::string::StringExecFns;
use crate::application::{Application, AppTree, Content, app_wf, spec_import_app};
use crate::assoc::{assoc_find, assoc_get, upsert, keys_distinct};
use crate::digest::{Digest, parse_digest_chars, digest_chars};

verus! {

/// The registry: applications keyed by their directory name.
pub struct Registry {
    pub apps: Vec<(String, Application)>,
}

/// An application entry that was imported from a tree of the given list: a
/// tree with the entry's name exists and the application satisfies the
/// loader's invariant against it.
pub open spec fn imported_from(trees: Seq<(String, AppTree)>, entry: (String, Application)) -> bool {
    exists|i: int|
        #![trigger trees[i]]
        0 <= i < trees.len() && trees[i].0@ == entry.0@ && app_wf(trees[i].1.blobs@, entry.1)
}

/// What looking up a manifest by reference returns: if the reference parses
/// as a digest, the manifest map decides under the canonical digest string;
/// otherwise the tag map decides under the reference text.
pub open spec fn spec_get_manifest(
    apps: Seq<(String, Application)>,
    app: Seq<char>,
    reference: Seq<char>,
) -> Option<Content> {
    match assoc_find(apps, app) {
        None => None,
        Some(a) => match parse_digest_chars(reference) {
            Some(th) => assoc_find(a.manifests@, digest_chars(th.0, th.1)),
            None => assoc_find(a.tags@, reference),
        },
    }
}

/// What looking up a blob returns: only a digest reference is consulted; a
/// tag on the blob endpoint finds nothing.
pub open spec fn spec_get_blob(
    apps: Seq<(String, Application)>,
    app: Seq<char>,
    digest: Seq<char>,
) -> Option<Content> {
    match assoc_find(apps, app) {
        None => None,
        Some(a) => match parse_digest_chars(digest) {
            Some(th) => assoc_find(a.blobs@, digest_chars(th.0, th.1)),
            None => None,
        },
    }
}

impl Registry {
    /// Imports every application directory under the root; one that fails
    /// to load is skipped, the rest still serve. Every kept application
    /// satisfies the loader's invariant against its own snapshot, and every
    /// snapshot that imports appears under its name.
    pub fn import(trees: &Vec<(String, AppTree)>) -> (r: Registry)
        ensures
            keys_distinct(r.apps@),
            forall|j: int|
                0 <= j < r.apps@.len() ==> imported_from(trees@, #[trigger] r.apps@[j]),
            forall|i: int|
                0 <= i < trees@.len() && spec_import_app((#[trigger] trees@[i]).1) ==> assoc_find(
                    r.apps@,
                    trees@[i].0@,
                ) is Some,
            forall|k2: Seq<char>|
                #[trigger] assoc_find(r.apps@, k2) is Some ==> exists|i: int|
                    0 <= i < trees@.len() && (#[trigger] trees@[i]).0@ == k2 && spec_import_app(
                        trees@[i].1,
                    ),
    {
        let mut reg = Registry { apps: Vec::new() };
        let mut k: usize = 0;
        while k < trees.len()
            invariant
                k <= trees@.len(),
                keys_distinct(reg.apps@),
                forall|j: int|
                    0 <= j < reg.apps@.len() ==> imported_from(trees@, #[trigger] reg.apps@[j]),
                forall|i: int|
                    0 <= i < k && spec_import_app((#[trigger] trees@[i]).1) ==> assoc_find(
                        reg.apps@,
                        trees@[i].0@,
                    ) is Some,
                forall|k2: Seq<char>|
                    #[trigger] assoc_find(reg.apps@, k2) is Some ==> exists|i: int|
                        0 <= i < trees@.len() && (#[trigger] trees@[i]).0@ == k2
                            && spec_import_app(trees@[i].1),
            decreases trees@.len() - k,
        {
            let name = trees[k].0.clone();
            match Application::import(name, &trees[k].1) {
                Ok(app) => {
                    let ghost old_apps = reg.apps@;
                    let key = trees[k].0.clone();
                    let ghost gkey = key@;
                    let ghost gapp = app;
                    upsert(&mut reg.apps, key, app);
                    proof {
                        assert forall|k2: Seq<char>|
                            #[trigger] assoc_find(reg.apps@, k2) is Some implies exists|i: int|
                            0 <= i < trees@.len() && (#[trigger] trees@[i]).0@ == k2
                                && spec_import_app(trees@[i].1) by {
                            if k2 == gkey {
                                assert(trees@[k as int].0@ == k2 && spec_import_app(
                                    trees@[k as int].1,
                                ));
                            } else {
                                assert(assoc_find(old_apps, k2) is Some);
                            }
                        }
                        assert forall|j: int| 0 <= j < reg.apps@.len() implies imported_from(
                            trees@,
                            #[trigger] reg.apps@[j],
                        ) by {
                            if reg.apps@[j].0@ == gkey && reg.apps@[j].1 == gapp {
                                assert(trees@[k as int].0@ == reg.apps@[j].0@ && app_wf(
                                    trees@[k as int].1.blobs@,
                                    reg.apps@[j].1,
                                ));
                            } else {
                                let i0 = choose|i0: int|
                                    #![auto]
                                    0 <= i0 < old_apps.len() && old_apps[i0] == reg.apps@[j];
                                assert(imported_from(trees@, old_apps[i0]));
                            }
                        }
                    }
                }
                Err(_) => {
                    proof {
                        assert(!spec_import_app(trees@[k as int].1));
                    }
                }
            }
            k += 1;
        }
        reg
    }

    /// The tag names of an application, unsorted; `None` when the
    /// application does not exist.
    pub fn get_tags(&self, app: &str) -> (r: Option<Vec<String>>)
        ensures
            match r {
                Some(v) => {
                    &&& assoc_find(self.apps@, app@) is Some
                    &&& v@.len() == assoc_find(self.apps@, app@).unwrap().tags@.len()
                    &&& forall|i: int|
                        0 <= i < v@.len() ==> (#[trigger] v@[i])@ == assoc_find(
                            self.apps@,
                            app@,
                        ).unwrap().tags@[i].0@
                },
                None => assoc_find(self.apps@, app@) is None,
            },
    {
        let a = match assoc_get(&self.apps, app) {
            Some(a) => a,
            None => {
                return None;
            }
        };
        Some(crate::assoc::assoc_keys(&a.tags))
    }

    /// Looks a manifest up by reference: a digest consults the manifest
    /// map, anything else the tag map.
    pub fn get_manifest(&self, app: &str, reference: &str) -> (r: Option<&Content>)
        ensures
            match r {
                Some(c) => spec_get_manifest(self.apps@, app@, reference@) == Some(*c),
                None => spec_get_manifest(self.apps@, app@, reference@) is None,
            },
    {
        let a = match assoc_get(&self.apps, app) {
            Some(a) => a,
            None => {
                return None;
            }
        };
        match Digest::parse(reference) {
            Ok(d) => {
                let key = d.to_string();
                assoc_get(&a.manifests, key.as_str())
            }
            Err(_) => assoc_get(&a.tags, reference),
        }
    }

    /// Looks a blob up by digest; a reference that is not a digest finds
    /// nothing.
    pub fn get_blob(&self, app: &str, digest: &str) -> (r: Option<&Content>)
        ensures
            match r {
                Some(c) => spec_get_blob(self.apps@, app@, digest@) == Some(*c),
                None => spec_get_blob(self.apps@, app@, digest@) is None,
            },
    {
        let a = match assoc_get(&self.apps, app) {
            Some(a) => a,
            None => {
                return None;
            }
        };
        match Digest::parse(digest) {
            Ok(d) => {
                let key = d.to_string();
                assoc_get(&a.blobs, key.as_str())
            }
            Err(_) => None,
        }
    }
}

} // verus!

//! The package manifest as the rest of the library reads it.
use vstd::prelude::*;

verus! {

/// The `package` section of a manifest.
pub struct PackageManifest {
    pub name: String,
    pub version: String,
    pub exclude: Vec<String>,
    pub entrypoint: Option<String>,
}

impl PackageManifest {
    /// The entrypoint, `main.typ` where none is declared.
    pub fn entrypoint_or_default(&self) -> (r: String)
        ensures
            r@ == match self.entrypoint {
                Some(e) => e@,
                None => "main.typ"@,
            },
    {
        match &self.entrypoint {
            Some(e) => e.clone(),
            None => "main.typ".to_owned(),
        }
    }
}

/// The `template` section of a manifest, each field optional.
pub struct TemplateConfig {
    pub path: Option<String>,
    pub entrypoint: Option<String>,
    pub thumbnail: Option<String>,
}

/// A template to build: its directory within the package, its entrypoint,
/// and where a thumbnail of its first page goes, if anywhere.
pub struct TemplateDescriptor {
    pub relative_path: String,
    pub entrypoint: String,
    pub thumbnail: Option<String>,
}

pub open spec fn same_text(a: Option<String>, b: Option<String>) -> bool {
    match (a, b) {
        (Some(x), Some(y)) => x@ == y@,
        (None, None) => true,
        _ => false,
    }
}

impl TemplateConfig {
    /// The template to build: present exactly when both its path and its
    /// entrypoint are given.
    pub fn descriptor(&self) -> (r: Option<TemplateDescriptor>)
        ensures
            r is Some <==> (self.path is Some && self.entrypoint is Some),
            r matches Some(d) ==> d.relative_path@ == self.path->Some_0@ && d.entrypoint@
                == self.entrypoint->Some_0@ && same_text(d.thumbnail, self.thumbnail),
    {
        match (&self.path, &self.entrypoint) {
            (Some(p), Some(e)) => {
                let thumbnail = match &self.thumbnail {
                    Some(t) => Some(t.clone()),
                    None => None,
                };
                Some(TemplateDescriptor { relative_path: p.clone(), entrypoint: e.clone(), thumbnail })
            },
            _ => None,
        }
    }
}

} // verus!

use vstd::prelude::*;
use crate::json::{Json, member, member_in, text_of};
use crate::request::{PackageRequest, Selector, selector_view};
use crate::text::join2;

verus! {

/// Why a package could not be resolved or acquired.
#[derive(Debug, Clone, PartialEq)]
pub enum AddCommandError {
    FailedToParsePackageMeta(String),
    FailedToRetrievePackageData(String),
    NoValidTarballUrl(String),
    FailedToExtractFileName,
    FailedToOpenFile(String),
}

/// A package resolved to one release and the address of its tarball.
#[derive(Debug, Clone, PartialEq)]
pub struct Package {
    pub name: String,
    pub tarball_url: String,
    pub version: String,
}

/// The tarball address recorded for `version` in a package's full metadata.
pub open spec fn tarball_in(meta: Json, version: Seq<char>) -> Option<Seq<char>> {
    text_of(
        member_in(member_in(member_in(member(meta, "versions"@), version), "dist"@), "tarball"@),
    )
}

/// The latest release named in a package's full metadata, with its tarball.
pub open spec fn latest_release(meta: Json) -> Option<(Seq<char>, Seq<char>)> {
    match text_of(member_in(member(meta, "dist-tags"@), "latest"@)) {
        Some(v) => match tarball_in(meta, v) {
            Some(u) => Some((v, u)),
            None => None,
        },
        None => None,
    }
}

/// The tarball address in the metadata of one release.
pub open spec fn release_tarball(meta: Json) -> Option<Seq<char>> {
    text_of(member_in(member(meta, "dist"@), "tarball"@))
}

/// The registry address that serves metadata.
pub open spec fn registry_base() -> Seq<char> {
    "https://registry.npmjs.org/"@
}

/// Where the metadata for a request is served: the full document of the
/// package for the latest release, that of one release otherwise.
pub open spec fn metadata_address(name: Seq<char>, version: Option<Seq<char>>) -> Seq<char> {
    match version {
        None => registry_base() + name,
        Some(v) => registry_base() + name + "/"@ + v,
    }
}

/// What resolving a request against `meta`, the metadata served for it,
/// gives: name, version and tarball address.
pub open spec fn resolution(name: Seq<char>, version: Option<Seq<char>>, meta: Json) -> Option<
    (Seq<char>, Seq<char>, Seq<char>),
> {
    match version {
        None => match latest_release(meta) {
            Some((v, u)) => Some((name, v, u)),
            None => None,
        },
        Some(v) => match release_tarball(meta) {
            Some(u) => Some((name, v, u)),
            None => None,
        },
    }
}

/// Name, version and tarball address of a package.
pub open spec fn package_view(p: Package) -> (Seq<char>, Seq<char>, Seq<char>) {
    (p.name@, p.version@, p.tarball_url@)
}

impl Package {
    pub fn new(name: &str, tarball_url: &str, version: &str) -> (r: Package)
        ensures
            package_view(r) == (name@, version@, tarball_url@),
    {
        Package { name: name.to_owned(), tarball_url: tarball_url.to_owned(), version: version.to_owned() }
    }

    pub fn name(&self) -> (r: &String)
        ensures
            r@ == self.name@,
    {
        &self.name
    }

    pub fn version(&self) -> (r: &String)
        ensures
            r@ == self.version@,
    {
        &self.version
    }

    pub fn tarball_url(&self) -> (r: &String)
        ensures
            r@ == self.tarball_url@,
    {
        &self.tarball_url
    }
}

/// The address of the metadata that resolves `req`.
pub fn metadata_url(req: &PackageRequest) -> (r: String)
    ensures
        r@ == metadata_address(req.name@, selector_view(req.selector)),
{
    let base = join2("https://registry.npmjs.org/", req.name.as_str());
    match &req.selector {
        Selector::Latest => base,
        Selector::Exact(v) => {
            let with_slash = join2(base.as_str(), "/");
            let r = join2(with_slash.as_str(), v.as_str());
            r
        },
    }
}

/// Resolves the latest release of `name` from its full metadata document.
pub fn resolve_latest(name: &str, meta: &Json) -> (r: Result<Package, AddCommandError>)
    ensures
        match r {
            Ok(p) => resolution(name@, None, *meta) == Some(package_view(p)),
            Err(e) => resolution(name@, None, *meta) is None && (e matches AddCommandError::NoValidTarballUrl(n) && n@ == name@),
        },
{
    let latest = match meta.get("dist-tags") {
        Some(tags) => match tags.get("latest") {
            Some(l) => l.as_str(),
            None => None,
        },
        None => None,
    };
    if let Some(v) = latest {
        let dist = match meta.get("versions") {
            Some(vs) => match vs.get(v.as_str()) {
                Some(rel) => rel.get("dist"),
                None => None,
            },
            None => None,
        };
        let url = match dist {
            Some(d) => match d.get("tarball") {
                Some(t) => t.as_str(),
                None => None,
            },
            None => None,
        };
        if let Some(u) = url {
            return Ok(Package::new(name, u.as_str(), v.as_str()));
        }
    }
    Err(AddCommandError::NoValidTarballUrl(name.to_owned()))
}

/// Resolves release `version` of `name` from the metadata of that release.
pub fn resolve_version(name: &str, version: &str, meta: &Json) -> (r: Result<Package, AddCommandError>)
    ensures
        match r {
            Ok(p) => resolution(name@, Some(version@), *meta) == Some(package_view(p)),
            Err(e) => resolution(name@, Some(version@), *meta) is None && (e matches AddCommandError::NoValidTarballUrl(n) && n@ == name@),
        },
{
    let url = match meta.get("dist") {
        Some(d) => match d.get("tarball") {
            Some(t) => t.as_str(),
            None => None,
        },
        None => None,
    };
    match url {
        Some(u) => Ok(Package::new(name, u.as_str(), version)),
        None => Err(AddCommandError::NoValidTarballUrl(name.to_owned())),
    }
}

/// Resolves `req` from `meta`, the metadata served at `metadata_url(req)`.
pub fn resolve(req: &PackageRequest, meta: &Json) -> (r: Result<Package, AddCommandError>)
    ensures
        match r {
            Ok(p) => resolution(req.name@, selector_view(req.selector), *meta) == Some(package_view(p)),
            Err(e) => resolution(req.name@, selector_view(req.selector), *meta) is None && (e matches AddCommandError::NoValidTarballUrl(n) && n@ == req.name@),
        },
{
    match &req.selector {
        Selector::Latest => resolve_latest(req.name.as_str(), meta),
        Selector::Exact(v) => resolve_version(req.name.as_str(), v.as_str(), meta),
    }
}

} // verus!

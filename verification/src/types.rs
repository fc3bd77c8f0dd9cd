//! The data model: a plugin's manifest, the marketplace index, and the
//! options a scaffold starts from. Paths are carried as plain strings.
//! Each record has a mathematical view over character sequences; every
//! contract in this crate speaks of those views.

use vstd::prelude::*;

verus! {

/// Author metadata for a plugin manifest.
#[derive(Debug)]
pub struct Author {
    pub name: String,
    pub email: Option<String>,
    pub url: Option<String>,
}

/// One plugin's declared identity, as stored in its manifest document.
#[derive(Debug)]
pub struct PluginManifest {
    pub name: String,
    pub description: String,
    pub version: String,
    pub author: Author,
    pub homepage: Option<String>,
    pub keywords: Option<Vec<String>>,
    pub commands: Option<String>,
    pub agents: Option<String>,
    pub skills: Option<String>,
    pub hooks: Option<String>,
}

/// Owner metadata for the marketplace index.
#[derive(Debug)]
pub struct Owner {
    pub name: String,
}

/// A denormalized summary of one plugin inside the marketplace index.
#[derive(Debug)]
pub struct MarketplaceEntry {
    pub name: String,
    pub source: String,
    pub description: Option<String>,
}

/// The shared index: one entry per registered plugin, in registration order.
#[derive(Debug)]
pub struct Marketplace {
    pub name: String,
    pub owner: Owner,
    pub plugins: Vec<MarketplaceEntry>,
}

/// Input options for creating a plugin scaffold and registering it.
#[derive(Debug)]
pub struct InitOptions {
    pub root: String,
    pub name: String,
    pub description: String,
    pub author: String,
}

/// The view of an optional string: its character sequence, if present.
pub open spec fn opt_view(o: Option<String>) -> Option<Seq<char>> {
    match o {
        Option::None => Option::None,
        Option::Some(s) => Option::Some(s@),
    }
}

/// Mathematical image of an `Author`.
#[verifier::ext_equal]
pub ghost struct AuthorView {
    pub name: Seq<char>,
    pub email: Option<Seq<char>>,
    pub url: Option<Seq<char>>,
}

/// Mathematical image of a `PluginManifest`.
#[verifier::ext_equal]
pub ghost struct ManifestView {
    pub name: Seq<char>,
    pub description: Seq<char>,
    pub version: Seq<char>,
    pub author: AuthorView,
    pub homepage: Option<Seq<char>>,
    pub keywords: Option<Seq<Seq<char>>>,
    pub commands: Option<Seq<char>>,
    pub agents: Option<Seq<char>>,
    pub skills: Option<Seq<char>>,
    pub hooks: Option<Seq<char>>,
}

/// Mathematical image of a `MarketplaceEntry`.
#[verifier::ext_equal]
pub ghost struct EntryView {
    pub name: Seq<char>,
    pub source: Seq<char>,
    pub description: Option<Seq<char>>,
}

/// Mathematical image of a `Marketplace`.
#[verifier::ext_equal]
pub ghost struct MarketplaceView {
    pub name: Seq<char>,
    pub owner_name: Seq<char>,
    pub plugins: Seq<EntryView>,
}

impl View for Author {
    type V = AuthorView;

    open spec fn view(&self) -> AuthorView {
        AuthorView {
            name: self.name@,
            email: opt_view(self.email),
            url: opt_view(self.url),
        }
    }
}

impl View for PluginManifest {
    type V = ManifestView;

    open spec fn view(&self) -> ManifestView {
        ManifestView {
            name: self.name@,
            description: self.description@,
            version: self.version@,
            author: self.author@,
            homepage: opt_view(self.homepage),
            keywords: match self.keywords {
                Option::None => Option::None,
                Option::Some(v) => Option::Some(v.deep_view()),
            },
            commands: opt_view(self.commands),
            agents: opt_view(self.agents),
            skills: opt_view(self.skills),
            hooks: opt_view(self.hooks),
        }
    }
}

impl View for MarketplaceEntry {
    type V = EntryView;

    open spec fn view(&self) -> EntryView {
        EntryView {
            name: self.name@,
            source: self.source@,
            description: opt_view(self.description),
        }
    }
}

impl View for Marketplace {
    type V = MarketplaceView;

    open spec fn view(&self) -> MarketplaceView {
        MarketplaceView {
            name: self.name@,
            owner_name: self.owner.name@,
            plugins: Seq::new(self.plugins@.len(), |i: int| self.plugins@[i]@),
        }
    }
}

/// Copies an optional string.
pub fn clone_opt_string(o: &Option<String>) -> (r: Option<String>)
    ensures
        r == *o,
{
    match o {
        Option::None => Option::None,
        Option::Some(s) => Option::Some(s.clone()),
    }
}

/// Copies a vector of strings.
pub fn clone_string_vec(v: &Vec<String>) -> (r: Vec<String>)
    ensures
        r@ == v@,
{
    let mut out: Vec<String> = Vec::new();
    let mut i: usize = 0;
    while i < v.len()
        invariant
            i <= v.len(),
            out@ =~= v@.subrange(0, i as int),
        decreases v.len() - i,
    {
        out.push(v[i].clone());
        i = i + 1;
    }
    assert(out@ =~= v@);
    out
}

impl Author {
    /// Copies the author record.
    pub fn duplicate(&self) -> (r: Author)
        ensures
            r@ == self@,
            r.name@ == self.name@,
    {
        Author {
            name: self.name.clone(),
            email: clone_opt_string(&self.email),
            url: clone_opt_string(&self.url),
        }
    }
}

impl PluginManifest {
    /// Copies the manifest record.
    pub fn duplicate(&self) -> (r: PluginManifest)
        ensures
            r@ == self@,
    {
        let r = PluginManifest {
            name: self.name.clone(),
            description: self.description.clone(),
            version: self.version.clone(),
            author: self.author.duplicate(),
            homepage: clone_opt_string(&self.homepage),
            keywords: match &self.keywords {
                Option::None => Option::None,
                Option::Some(v) => Option::Some(clone_string_vec(v)),
            },
            commands: clone_opt_string(&self.commands),
            agents: clone_opt_string(&self.agents),
            skills: clone_opt_string(&self.skills),
            hooks: clone_opt_string(&self.hooks),
        };
        assert(r@ =~= self@);
        r
    }
}

impl MarketplaceEntry {
    /// Copies the entry record.
    pub fn duplicate(&self) -> (r: MarketplaceEntry)
        ensures
            r@ == self@,
    {
        let r = MarketplaceEntry {
            name: self.name.clone(),
            source: self.source.clone(),
            description: clone_opt_string(&self.description),
        };
        assert(r@ =~= self@);
        r
    }
}

/// The fixed marketplace bootstrap: the default index written when none
/// exists yet.
pub fn default_marketplace() -> (m: Marketplace)
    ensures
        m@ == default_marketplace_view(),
{
    let m = Marketplace {
        name: "marketplace-of-abeeshake".to_owned(),
        owner: Owner { name: "abeeshake".to_owned() },
        plugins: Vec::new(),
    };
    assert(m@ =~= default_marketplace_view());
    m
}

/// The view of the fixed marketplace bootstrap.
pub open spec fn default_marketplace_view() -> MarketplaceView {
    MarketplaceView {
        name: "marketplace-of-abeeshake"@,
        owner_name: "abeeshake"@,
        plugins: Seq::empty(),
    }
}

} // verus!

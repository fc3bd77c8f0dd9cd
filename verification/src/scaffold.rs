//! Scaffolder: plans a new plugin's directory skeleton, default manifest,
//! default command stub, and the marketplace registration. The plan is a
//! pure value; the caller performs the filesystem writes it describes.

use vstd::prelude::*;
use crate::codec::{enc_manifest, enc_marketplace, encode_manifest, DecodeError};
use crate::market::{
    add_to_marketplace, content_view, entry_for, load_or_default, source_of, spec_upsert,
};
use crate::spec_path_join;
use crate::path_join;
use crate::types::{Author, AuthorView, InitOptions, ManifestView, MarketplaceView, PluginManifest};
use crate::validate::{spec_validate, validate_plugin, PathPresence, ValidateError};

verus! {

/// Why scaffolding failed.
#[derive(Clone, Copy, Debug, PartialEq, Eq, Structural)]
pub enum InitError {
    /// The target plugin directory already exists.
    PluginDirExists,
    /// The freshly written manifest did not validate: an internal
    /// inconsistency between the template and the codec.
    Validate(ValidateError),
    /// The existing marketplace index could not be decoded.
    Sync(DecodeError),
}

/// Everything `init_plugin` decides: the directories to create, the files
/// to write, and the marketplace registration, in that order.
#[derive(Debug)]
pub struct InitPlan {
    /// The new plugin's root directory.
    pub plugin_dir: String,
    /// Its metadata directory, holding the manifest.
    pub metadata_dir: String,
    /// Its commands directory.
    pub commands_dir: String,
    /// Where the manifest document goes.
    pub manifest_path: String,
    /// The manifest document.
    pub manifest_content: String,
    /// Where the default command stub goes.
    pub command_path: String,
    /// The default command stub.
    pub command_content: String,
    /// Where the marketplace index goes.
    pub marketplace_path: String,
    /// The updated marketplace index document.
    pub marketplace_content: String,
}

/// The manifest a scaffold starts from: the given identity, version 0.1.0,
/// and the default commands directory.
pub open spec fn scaffold_manifest_view(
    name: Seq<char>,
    description: Seq<char>,
    author: Seq<char>,
) -> ManifestView {
    ManifestView {
        name: name,
        description: description,
        version: "0.1.0"@,
        author: AuthorView { name: author, email: None, url: None },
        homepage: None,
        keywords: None,
        commands: Some("./commands/"@),
        agents: None,
        skills: None,
        hooks: None,
    }
}

/// The default command stub: front matter with the description and a fixed
/// tags marker, then a heading with the plugin name and placeholder text.
pub open spec fn command_template(name: Seq<char>, description: Seq<char>) -> Seq<char> {
    "---\ndescription: "@ + description + "\ntags: [starter]\n---\n\n# "@ + name
        + "\n\nDescribe your command behavior here. Update this file with real instructions for the plugin consumer.\n"@
}

/// The plugin directory a scaffold targets.
pub open spec fn plugin_dir_of(root: Seq<char>, name: Seq<char>) -> Seq<char> {
    spec_path_join(spec_path_join(root, "plugins"@), name)
}

/// The marketplace index path under a root.
pub open spec fn marketplace_path_of(root: Seq<char>) -> Seq<char> {
    spec_path_join(spec_path_join(root, ".plugin-meta"@), "marketplace.json"@)
}

/// Builds the marketplace index path under a root.
pub fn marketplace_path_for(root: &str) -> (r: String)
    ensures
        r@ == marketplace_path_of(root@),
{
    let a = path_join(root, ".plugin-meta");
    path_join(a.as_str(), "marketplace.json")
}

/// Plans a new plugin scaffold: refuses an existing target directory,
/// constructs the default manifest and command stub, self-checks the
/// manifest through the validator, and registers the plugin in the
/// marketplace index. All writes are returned as a plan, none performed.
pub fn init_plugin(
    opts: &InitOptions,
    plugin_dir_exists: bool,
    index_content: Option<&String>,
) -> (r: Result<InitPlan, InitError>)
    ensures
        ({
            let sv = scaffold_manifest_view(opts.name@, opts.description@, opts.author@);
            let pres = PathPresence { commands: true, agents: true, skills: true, hooks: true };
            let pd = plugin_dir_of(opts.root@, opts.name@);
            match r {
                Err(InitError::PluginDirExists) => plugin_dir_exists,
                Err(InitError::Validate(e)) => !plugin_dir_exists && spec_validate(
                    enc_manifest(sv),
                    pres,
                ) == Err::<ManifestView, ValidateError>(e),
                Err(InitError::Sync(e)) => !plugin_dir_exists && load_or_default(
                    content_view(index_content),
                ) == Err::<MarketplaceView, DecodeError>(e),
                Ok(plan) => !plugin_dir_exists && plan.plugin_dir@ == pd && plan.metadata_dir@
                    == spec_path_join(pd, ".plugin-meta"@) && plan.commands_dir@
                    == spec_path_join(pd, "commands"@) && plan.manifest_path@ == spec_path_join(
                    spec_path_join(pd, ".plugin-meta"@),
                    "plugin.json"@,
                ) && plan.manifest_content@ == enc_manifest(sv) && plan.command_path@
                    == spec_path_join(spec_path_join(pd, "commands"@), opts.name@ + ".md"@)
                    && plan.command_content@ == command_template(opts.name@, opts.description@)
                    && plan.marketplace_path@ == marketplace_path_of(opts.root@) && (
                match spec_validate(enc_manifest(sv), pres) {
                    Ok(mv2) => exists|ix: MarketplaceView|
                        load_or_default(content_view(index_content)) == Ok::<
                            MarketplaceView,
                            DecodeError,
                        >(ix) && plan.marketplace_content@ == enc_marketplace(
                            #[trigger] spec_upsert(ix, entry_for(mv2, source_of(pd, opts.root@))),
                        ),
                    Err(_) => false,
                }),
            }
        }),
{
    if plugin_dir_exists {
        return Err(InitError::PluginDirExists);
    }
    let ghost sv = scaffold_manifest_view(opts.name@, opts.description@, opts.author@);
    let plugins_root = path_join(opts.root.as_str(), "plugins");
    let plugin_dir = path_join(plugins_root.as_str(), opts.name.as_str());
    let metadata_dir = path_join(plugin_dir.as_str(), ".plugin-meta");
    let commands_dir = path_join(plugin_dir.as_str(), "commands");
    let manifest_path = path_join(metadata_dir.as_str(), "plugin.json");

    let manifest = PluginManifest {
        name: opts.name.clone(),
        description: opts.description.clone(),
        version: String::from_str("0.1.0"),
        author: Author { name: opts.author.clone(), email: None, url: None },
        homepage: None,
        keywords: None,
        commands: Some(String::from_str("./commands/")),
        agents: None,
        skills: None,
        hooks: None,
    };
    assert(manifest@ =~= sv);
    let manifest_content = encode_manifest(&manifest);

    let mut stub_name = opts.name.clone();
    stub_name.append(".md");
    let command_path = path_join(commands_dir.as_str(), stub_name.as_str());
    let mut command_content = String::from_str("---\ndescription: ");
    command_content.append(opts.description.as_str());
    command_content.append("\ntags: [starter]\n---\n\n# ");
    command_content.append(opts.name.as_str());
    command_content.append(
        "\n\nDescribe your command behavior here. Update this file with real instructions for the plugin consumer.\n",
    );
    assert(command_content@ =~= command_template(opts.name@, opts.description@));

    let pres = PathPresence { commands: true, agents: true, skills: true, hooks: true };
    let validated = match validate_plugin(manifest_content.as_str(), &pres) {
        Ok(m) => m,
        Err(e) => {
            return Err(InitError::Validate(e));
        },
    };

    let marketplace_path = marketplace_path_for(opts.root.as_str());
    let marketplace_content = match add_to_marketplace(
        opts.root.as_str(),
        &validated,
        plugin_dir.as_str(),
        index_content,
    ) {
        Ok(c) => c,
        Err(e) => {
            return Err(InitError::Sync(e));
        },
    };

    Ok(
        InitPlan {
            plugin_dir,
            metadata_dir,
            commands_dir,
            manifest_path,
            manifest_content,
            command_path,
            command_content,
            marketplace_path,
            marketplace_content,
        },
    )
}

} // verus!

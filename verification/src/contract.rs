//! The input and output contracts of the blocks.
use vstd::prelude::*;

use crate::json::ValueView;
use crate::schema::{AdditionalView, FieldView, SchemaView, SemanticFormat, TypeView};

verus! {

pub open spec fn req(value_type: TypeView) -> FieldView {
    FieldView::required(value_type)
}

pub open spec fn opt(value_type: TypeView) -> FieldView {
    FieldView::optional(value_type)
}

pub open spec fn nullable(value_type: TypeView) -> FieldView {
    FieldView { nullable: true, ..FieldView::optional(value_type) }
}

/// A field that holds one of the given texts.
pub open spec fn one_of(field: FieldView, choices: Seq<Seq<char>>) -> FieldView {
    FieldView {
        allowed_values: choices.map_values(|choice: Seq<char>| ValueView::String(choice)),
        ..field
    }
}

/// A field that can only be false.
pub open spec fn only_false(field: FieldView) -> FieldView {
    FieldView { allowed_values: seq![ValueView::Bool(false)], ..field }
}

pub open spec fn plain_string() -> TypeView {
    TypeView::String { format: None }
}

pub open spec fn string(format: SemanticFormat) -> TypeView {
    TypeView::String { format: Some(format) }
}

pub open spec fn array(items: TypeView) -> TypeView {
    TypeView::Array { items: Box::new(items) }
}

pub open spec fn object(schema: SchemaView) -> TypeView {
    TypeView::Object { schema: Box::new(schema) }
}

/// An object whose values are all texts.
pub open spec fn string_map_type(id: Seq<char>) -> TypeView {
    object(
        SchemaView {
            additional_fields: AdditionalView::typed(plain_string()),
            ..SchemaView::new(id)
        },
    )
}

pub open spec fn path() -> TypeView {
    string(SemanticFormat::Path)
}

pub open spec fn file_path() -> TypeView {
    string(SemanticFormat::FilePath)
}

pub open spec fn directory_path() -> TypeView {
    string(SemanticFormat::DirectoryPath)
}

pub open spec fn url() -> TypeView {
    string(SemanticFormat::Url)
}

pub open spec fn git_url() -> TypeView {
    string(SemanticFormat::GitUrl)
}

pub open spec fn git_ref() -> TypeView {
    string(SemanticFormat::GitRef)
}

pub open spec fn sha256() -> TypeView {
    string(SemanticFormat::Sha256)
}

pub open spec fn identifier() -> TypeView {
    string(SemanticFormat::Identifier)
}

pub open spec fn package_name() -> TypeView {
    string(SemanticFormat::PackageName)
}

pub open spec fn secret_ref() -> TypeView {
    string(SemanticFormat::SecretRef)
}

pub open spec fn path_expectation_type() -> TypeView {
    object(SchemaView::new("ppduster.path.expectation@1"@)
        .with_field("exists"@, nullable(TypeView::Boolean))
        .with_field("kind"@, one_of(nullable(plain_string()), seq!["file"@].push("directory"@).push("symlink"@).push("other"@)))
        .with_field("empty"@, nullable(TypeView::Boolean))
        .with_field("min_size_bytes"@, nullable(TypeView::Integer))
        .with_field("max_size_bytes"@, nullable(TypeView::Integer))
        .with_field("modified_at_or_after"@, nullable(string(SemanticFormat::DateTime)))
        .with_field("modified_at_or_before"@, nullable(string(SemanticFormat::DateTime)))
        .with_field("sha256"@, nullable(sha256())))
}

pub open spec fn package_registry_inputs() -> SchemaView {
    let secrets = object(SchemaView::new("ppduster.configuration.secret-profile@1"@)
        .with_field("profile"@, req(secret_ref()))
        .with_field("username_env"@, req(identifier()))
        .with_field("token_env"@, req(identifier())));
    let npm = object(SchemaView::new("ppduster.configuration.npm@1"@)
        .with_field("scope"@, req(plain_string()))
        .with_field("registry"@, req(url())));
    let nuget = object(SchemaView::new("ppduster.configuration.nuget@1"@)
        .with_field("public_source_name"@, req(identifier()))
        .with_field("public_source"@, req(url()))
        .with_field("source_name"@, req(identifier()))
        .with_field("source"@, req(url()))
        .with_field("package_patterns"@, req(array(plain_string()))));
    SchemaView::new("ppduster.configuration.package-registries.inputs@1"@)
        .with_field("secrets"@, req(secrets))
        .with_field("npm"@, req(npm))
        .with_field("nuget"@, req(nuget))
}

pub open spec fn github_repository_type() -> TypeView {
    object(SchemaView::new("ppduster.github.repository@1"@)
        .with_field("id"@, req(string(SemanticFormat::OpaqueId)))
        .with_field("owner"@, req(string(SemanticFormat::RepositoryName)))
        .with_field("name"@, req(string(SemanticFormat::RepositoryName)))
        .with_field("full_name"@, req(string(SemanticFormat::RepositoryName)))
        .with_field("https_url"@, req(git_url()))
        .with_field("ssh_url"@, req(git_url()))
        .with_field("default_branch"@, nullable(git_ref()))
        .with_field("private"@, req(TypeView::Boolean))
        .with_field("archived"@, req(TypeView::Boolean)))
}

pub open spec fn github_context_type() -> TypeView {
    let account = object(SchemaView::new("ppduster.github.account@1"@)
        .with_field("login"@, req(identifier())));
    object(SchemaView::new("ppduster.github.context@1"@)
        .with_field("account"@, req(account))
        .with_field("repositories"@, req(array(github_repository_type()))))
}

pub open spec fn github_repositories_schema() -> SchemaView {
    SchemaView::new("ppduster.github.repositories@1"@)
        .with_field("github"@, req(github_context_type()))
}

pub open spec fn for_each_schema(id: Seq<char>) -> SchemaView {
    let loop_value = object(SchemaView::new("ppduster.control.loop@1"@)
        .with_field("source_step"@, req(identifier()))
        .with_field("array_path"@, req(plain_string()))
        .with_field("item_alias"@, req(identifier()))
        .with_field("count"@, req(TypeView::Integer))
        .with_field("items"@, req(array(TypeView::Any))));
    SchemaView::new(id)
        .with_field("loop"@, req(loop_value))
}

pub open spec fn for_each_results_schema() -> SchemaView {
    let loop_value = object(SchemaView::new("ppduster.control.loop-results@1"@)
        .with_field("source_step"@, req(identifier()))
        .with_field("count"@, req(TypeView::Integer))
        .with_field("applied"@, req(TypeView::Integer))
        .with_field("satisfied"@, req(TypeView::Integer))
        .with_field("failed"@, req(TypeView::Boolean))
        .with_field("error"@, nullable(plain_string())));
    SchemaView::new("ppduster.control.for-each-results@1"@)
        .with_field("loop"@, req(loop_value))
}

pub open spec fn create_directory_schema() -> SchemaView {
    let path_value = object(SchemaView::new("ppduster.filesystem.created-path@1"@)
        .with_field("value"@, req(directory_path()))
        .with_field("exists"@, req(TypeView::Boolean))
        .with_field("kind"@, req(plain_string()))
        .with_field("created"@, req(TypeView::Boolean))
        .with_field("changed"@, req(TypeView::Boolean)));
    SchemaView::new("ppduster.filesystem.create-directory@1"@)
        .with_field("path"@, req(path_value))
}

pub open spec fn path_metadata_schema() -> SchemaView {
    SchemaView::new("ppduster.path.metadata@1"@)
        .with_field("path"@, req(path()))
        .with_field("exists"@, req(TypeView::Boolean))
        .with_field("kind"@, nullable(plain_string()))
        .with_field("size_bytes"@, nullable(TypeView::Integer))
        .with_field("empty"@, nullable(TypeView::Boolean))
        .with_field("entry_count"@, nullable(TypeView::Integer))
        .with_field("modified_at"@, nullable(string(SemanticFormat::DateTime)))
        .with_field("created_at"@, nullable(string(SemanticFormat::DateTime)))
        .with_field("sha256"@, nullable(sha256()))
}

pub open spec fn copy_path_schema() -> SchemaView {
    let path_value = object(SchemaView::new("ppduster.filesystem.copy-result@1"@)
        .with_field("source"@, req(path()))
        .with_field("destination"@, req(path()))
        .with_field("copied"@, req(TypeView::Boolean))
        .with_field("changed"@, req(TypeView::Boolean)));
    SchemaView::new("ppduster.filesystem.copy-path@1"@)
        .with_field("path"@, req(path_value))
}

pub open spec fn write_file_schema() -> SchemaView {
    let file = object(SchemaView::new("ppduster.filesystem.file-result@1"@)
        .with_field("path"@, req(file_path()))
        .with_field("bytes"@, req(TypeView::Integer))
        .with_field("sha256"@, req(sha256()))
        .with_field("created"@, req(TypeView::Boolean))
        .with_field("changed"@, req(TypeView::Boolean)));
    SchemaView::new("ppduster.filesystem.write-file@1"@)
        .with_field("file"@, req(file))
}

pub open spec fn remove_path_schema() -> SchemaView {
    let path_value = object(SchemaView::new("ppduster.filesystem.removed-path@1"@)
        .with_field("value"@, req(path()))
        .with_field("exists"@, req(TypeView::Boolean))
        .with_field("removed"@, req(TypeView::Boolean))
        .with_field("changed"@, req(TypeView::Boolean)));
    SchemaView::new("ppduster.filesystem.remove-path@1"@)
        .with_field("path"@, req(path_value))
}

pub open spec fn repository_schema(id: Seq<char>) -> SchemaView {
    let repository = object(SchemaView::new("ppduster.git.repository-result@1"@)
        .with_field("path"@, req(directory_path()))
        .with_field("remote_url"@, req(git_url()))
        .with_field("branch"@, nullable(git_ref()))
        .with_field("exists"@, req(TypeView::Boolean))
        .with_field("operation"@, req(plain_string()))
        .with_field("cloned"@, req(TypeView::Boolean))
        .with_field("fetched"@, req(TypeView::Boolean))
        .with_field("updated"@, req(TypeView::Boolean))
        .with_field("changed"@, req(TypeView::Boolean)));
    SchemaView::new(id)
        .with_field("repository"@, req(repository))
}

pub open spec fn package_schema() -> SchemaView {
    let package = object(SchemaView::new("ppduster.package.result@1"@)
        .with_field("name"@, req(package_name()))
        .with_field("cask"@, req(TypeView::Boolean))
        .with_field("installed"@, req(TypeView::Boolean))
        .with_field("changed"@, req(TypeView::Boolean)));
    SchemaView::new("ppduster.package.brew-install@1"@)
        .with_field("package"@, req(package))
}

pub open spec fn process_exit_schema() -> SchemaView {
    SchemaView::new("ppduster.process.exit@1"@)
        .with_field("exit_code"@, nullable(TypeView::Integer))
        .with_field("termination_signal"@, nullable(TypeView::Integer))
        .with_field("accepted"@, req(TypeView::Boolean))
        .with_field("success_exit_codes"@, req(array(TypeView::Integer)))
}

pub open spec fn configuration_schema() -> SchemaView {
    let configuration = object(SchemaView::new("ppduster.configuration.result@1"@)
        .with_field("npm_scope"@, req(plain_string()))
        .with_field("npm_registry"@, req(url()))
        .with_field("nuget_public_source"@, req(url()))
        .with_field("nuget_private_source"@, req(url()))
        .with_field("changed"@, req(TypeView::Boolean))
        .with_field("secrets_redacted"@, req(TypeView::Boolean)));
    SchemaView::new("ppduster.configuration.package-registries@1"@)
        .with_field("configuration"@, req(configuration))
}

pub open spec fn download_schema() -> SchemaView {
    let artifact = object(SchemaView::new("ppduster.artifact.download-result@1"@)
        .with_field("url"@, req(url()))
        .with_field("path"@, req(file_path()))
        .with_field("sha256"@, req(sha256()))
        .with_field("downloaded"@, req(TypeView::Boolean))
        .with_field("verified"@, req(TypeView::Boolean))
        .with_field("changed"@, req(TypeView::Boolean)));
    SchemaView::new("ppduster.artifact.download@1"@)
        .with_field("artifact"@, req(artifact))
}

pub open spec fn extract_schema() -> SchemaView {
    let archive = object(SchemaView::new("ppduster.artifact.extract-result@1"@)
        .with_field("source"@, req(file_path()))
        .with_field("destination"@, req(directory_path()))
        .with_field("format"@, req(plain_string()))
        .with_field("extracted"@, req(TypeView::Boolean))
        .with_field("changed"@, req(TypeView::Boolean)));
    SchemaView::new("ppduster.artifact.extract@1"@)
        .with_field("archive"@, req(archive))
}

pub open spec fn system_schema() -> SchemaView {
    let system = object(SchemaView::new("ppduster.system.result@1"@)
        .with_field("platform"@, req(plain_string()))
        .with_field("minimum_version"@, req(plain_string()))
        .with_field("rosetta_required"@, req(TypeView::Boolean))
        .with_field("satisfied"@, req(TypeView::Boolean))
        .with_field("changed"@, req(TypeView::Boolean)));
    SchemaView::new("ppduster.system.macos-requirements@1"@)
        .with_field("system"@, req(system))
}

pub open spec fn license_schema() -> SchemaView {
    let license = object(SchemaView::new("ppduster.license.result@1"@)
        .with_field("provider"@, req(plain_string()))
        .with_field("method"@, req(plain_string()))
        .with_field("activated"@, req(TypeView::Boolean))
        .with_field("changed"@, req(TypeView::Boolean))
        .with_field("secret_exposed"@, req(TypeView::Boolean)));
    SchemaView::new("ppduster.license.activation@1"@)
        .with_field("license"@, req(license))
}

pub open spec fn one_path_input(id: Seq<char>, name: Seq<char>) -> SchemaView {
    SchemaView::new(id)
        .with_field(name, req(path()))
}

pub open spec fn run_command_inputs() -> SchemaView {
    SchemaView::new("ppduster.run-command.inputs@1"@)
        .with_field("program"@, req(plain_string()))
        .with_field("args"@, opt(array(plain_string())))
        .with_field("cwd"@, nullable(directory_path()))
        .with_field("env"@, opt(string_map_type("ppduster.process.environment@1"@)))
        .with_field("shell"@, one_of(opt(plain_string()), seq!["forbidden"@].push("allow"@)))
}

pub open spec fn run_script_inputs() -> SchemaView {
    SchemaView::new("ppduster.run-script.inputs@1"@)
        .with_field("interpreter"@, one_of(req(plain_string()), seq!["sh"@].push("bash"@).push("powershell"@)))
        .with_field("script"@, req(file_path()))
        .with_field("args"@, opt(array(plain_string())))
        .with_field("cwd"@, nullable(directory_path()))
        .with_field("env"@, opt(string_map_type("ppduster.process.environment@1"@)))
        .with_field("success_exit_codes"@, opt(array(TypeView::Integer)))
}

pub open spec fn install_pkg_inputs() -> SchemaView {
    SchemaView::new("ppduster.install-pkg.inputs@1"@)
        .with_field("pkg"@, req(file_path()))
        .with_field("target"@, nullable(directory_path()))
}

pub open spec fn app_store_inputs() -> SchemaView {
    SchemaView::new("ppduster.app-store-install.inputs@1"@)
        .with_field("app_id"@, req(TypeView::Integer))
        .with_field("operation"@, one_of(opt(plain_string()), seq!["install"@].push("get"@)))
}

pub open spec fn bambu_studio_inputs() -> SchemaView {
    SchemaView::new("ppduster.bambu-studio-release.inputs@1"@)
        .with_field("channel"@, one_of(opt(plain_string()), seq!["release"@].push("beta"@)))
}

pub open spec fn install_dmg_inputs() -> SchemaView {
    let identity = object(SchemaView::new("ppduster.installation.app-identity@1"@)
        .with_field("bundle_identifier"@, req(identifier()))
        .with_field("team_identifier"@, req(identifier()))
        .with_field("version"@, req(plain_string())));
    SchemaView::new("ppduster.install-dmg.inputs@1"@)
        .with_field("dmg"@, req(file_path()))
        .with_field("app_name"@, nullable(plain_string()))
        .with_field("target"@, nullable(directory_path()))
        .with_field("identity"@, nullable(identity))
}

pub open spec fn installation_schema(id: Seq<char>) -> SchemaView {
    let installation = object(SchemaView::new("ppduster.installation.result@1"@)
        .with_field("source"@, nullable(path()))
        .with_field("target"@, nullable(path()))
        .with_field("app_name"@, nullable(plain_string()))
        .with_field("name"@, nullable(plain_string()))
        .with_field("id"@, nullable(TypeView::Integer))
        .with_field("operation"@, nullable(plain_string()))
        .with_field("channel"@, nullable(plain_string()))
        .with_field("bundle_identifier"@, nullable(identifier()))
        .with_field("version"@, nullable(plain_string()))
        .with_field("installed"@, req(TypeView::Boolean))
        .with_field("changed"@, req(TypeView::Boolean)));
    SchemaView::new(id)
        .with_field("installation"@, opt(installation))
        .with_field("application"@, opt(installation))
}

pub open spec fn checkout_inputs() -> SchemaView {
    SchemaView::new("ppduster.git.inputs@1"@)
        .with_field("repo"@, req(git_url()))
        .with_field("dest"@, req(directory_path()))
}

pub open spec fn branch_inputs() -> SchemaView {
    checkout_inputs().with_field("branch"@, nullable(git_ref()))
}

pub open spec fn branch_required_inputs() -> SchemaView {
    checkout_inputs().with_field("branch"@, req(git_ref()))
}

pub open spec fn list_repositories_inputs() -> SchemaView {
    SchemaView::new("ppduster.github.repositories.inputs@1"@)
}

pub open spec fn select_repositories_inputs() -> SchemaView {
    SchemaView::new("ppduster.github.select-repositories.inputs@1"@)
        .with_field("github"@, req(github_context_type()))
}

pub open spec fn for_each_inputs() -> SchemaView {
    SchemaView::new("ppduster.control.for-each.inputs@1"@)
        .with_field("source_step"@, req(identifier()))
        .with_field("array_path"@, req(plain_string()))
        .with_field("item"@, req(identifier()))
        .with_field("fields"@, opt(array(plain_string())))
}

pub open spec fn clone_each_inputs() -> SchemaView {
    branch_inputs().with_field("loop_step"@, req(identifier()))
}

pub open spec fn inspect_path_inputs() -> SchemaView {
    SchemaView::new("ppduster.path.metadata.inputs@1"@)
        .with_field("path"@, req(path()))
        .with_field("recursive_size"@, opt(TypeView::Boolean))
        .with_field("sha256"@, opt(TypeView::Boolean))
        .with_field("expect"@, nullable(path_expectation_type()))
}

pub open spec fn copy_path_inputs() -> SchemaView {
    SchemaView::new("ppduster.filesystem.copy-path.inputs@1"@)
        .with_field("src"@, req(path()))
        .with_field("dest"@, req(path()))
}

pub open spec fn write_file_inputs() -> SchemaView {
    SchemaView::new("ppduster.filesystem.write-file.inputs@1"@)
        .with_field("path"@, req(file_path()))
        .with_field("content"@, req(plain_string()))
        .with_field("on_conflict"@, one_of(opt(plain_string()), seq!["fail"@].push("replace"@)))
}

pub open spec fn brew_install_inputs() -> SchemaView {
    SchemaView::new("ppduster.package.brew-install.inputs@1"@)
        .with_field("package"@, req(package_name()))
        .with_field("cask"@, opt(TypeView::Boolean))
}

pub open spec fn download_inputs() -> SchemaView {
    SchemaView::new("ppduster.artifact.download.inputs@1"@)
        .with_field("url"@, req(url()))
        .with_field("dest"@, req(file_path()))
        .with_field("checksum"@, req(object(SchemaView::new("ppduster.artifact.checksum@1"@)
        .with_field("sha256"@, req(sha256())))))
}

pub open spec fn extract_inputs() -> SchemaView {
    SchemaView::new("ppduster.artifact.extract.inputs@1"@)
        .with_field("src"@, req(file_path()))
        .with_field("dest"@, req(directory_path()))
        .with_field("format"@, one_of(opt(plain_string()), seq!["auto"@].push("zip"@).push("tar"@).push("tar-gz"@).push("tar-bz2"@).push("tar-xz"@)))
        .with_field("max_unpacked_bytes"@, opt(TypeView::Integer))
}

pub open spec fn macos_inputs() -> SchemaView {
    SchemaView::new("ppduster.system.macos-requirements.inputs@1"@)
        .with_field("minimum_version"@, req(plain_string()))
        .with_field("require_rosetta_on_apple_silicon"@, opt(TypeView::Boolean))
}

pub open spec fn license_inputs() -> SchemaView {
    SchemaView::new("ppduster.license.activation.inputs@1"@)
        .with_field("provider"@, one_of(req(plain_string()), seq!["light-burn"@]))
        .with_field("method"@, one_of(req(plain_string()), seq!["vendor-ui"@]))
}

pub open spec fn no_preview_inputs() -> SchemaView {
    SchemaView::new("ppduster.github.preview-repositories.inputs@1"@)
}

pub open spec fn no_selection_inputs() -> SchemaView {
    SchemaView::new("ppduster.array.selection.inputs@1"@)
}

pub open spec fn array_selection_schema(item_type: TypeView) -> SchemaView {
    SchemaView::new("ppduster.array.selection@1"@)
        .with_field("items"@, req(array(item_type)))
}

pub open spec fn public_repository_type() -> TypeView {
    object(SchemaView::new("ppduster.github.repository@1"@)
        .with_field("id"@, req(string(SemanticFormat::OpaqueId)))
        .with_field("owner"@, req(string(SemanticFormat::RepositoryName)))
        .with_field("name"@, req(string(SemanticFormat::RepositoryName)))
        .with_field("full_name"@, req(string(SemanticFormat::RepositoryName)))
        .with_field("https_url"@, req(git_url()))
        .with_field("ssh_url"@, req(git_url()))
        .with_field("default_branch"@, nullable(git_ref()))
        .with_field("private"@, only_false(req(TypeView::Boolean)))
        .with_field("archived"@, req(TypeView::Boolean)))
}

pub open spec fn selected_repositories_schema() -> SchemaView {
    SchemaView::new("ppduster.github.selected-repositories@1"@)
        .with_field("repositories"@, req(array(public_repository_type())))
}

} // verus!

//! Schemas of the blocks.
use vstd::prelude::*;

use crate::contract;
use crate::json::{value_views, Value, ValueView};
use crate::schema::{ContextType, FieldSchema, ObjectSchema, SemanticFormat};
use crate::text::owned;

verus! {

fn req(value_type: ContextType) -> (res: FieldSchema)
    ensures
        res@ == contract::req(value_type@),
{
    FieldSchema::required(value_type)
}

fn opt(value_type: ContextType) -> (res: FieldSchema)
    ensures
        res@ == contract::opt(value_type@),
{
    FieldSchema::optional(value_type)
}

fn nullable(value_type: ContextType) -> (res: FieldSchema)
    ensures
        res@ == contract::nullable(value_type@),
{
    FieldSchema::optional(value_type).nullable()
}

fn string(format: SemanticFormat) -> (res: ContextType)
    ensures
        res@ == contract::string(format),
{
    ContextType::string(format)
}

/// Texts that a field may hold.
struct Choices {
    list: Vec<Value>,
}

pub open spec fn choice_values(choices: Seq<Seq<char>>) -> Seq<ValueView> {
    choices.map_values(|choice: Seq<char>| ValueView::String(choice))
}

impl Choices {
    spec fn holds(&self, choices: Seq<Seq<char>>) -> bool {
        value_views(self.list@) == choice_values(choices)
    }

    spec fn view(&self) -> Seq<Seq<char>> {
        value_views(self.list@).map_values(|value: ValueView| value->String_0)
    }

    fn of(choice: &str) -> (res: Self)
        ensures
            res.holds(res@),
            res@ == seq![choice@],
    {
        let mut list: Vec<Value> = Vec::new();
        list.push(Value::String(owned(choice)));
        let res = Choices { list };
        assert(res@ =~= seq![choice@]);
        assert(value_views(res.list@) =~= choice_values(res@));
        res
    }

    fn or(self, choice: &str) -> (res: Self)
        requires
            self.holds(self@),
        ensures
            res.holds(res@),
            res@ == self@.push(choice@),
    {
        let ghost before = self@;
        let mut list = self.list;
        list.push(Value::String(owned(choice)));
        let res = Choices { list };
        assert(res@ =~= before.push(choice@));
        assert(value_views(res.list@) =~= choice_values(res@));
        res
    }
}

fn one_of(field: FieldSchema, choices: Choices) -> (res: FieldSchema)
    requires
        choices.holds(choices@),
    ensures
        res@ == contract::one_of(field@, choices@),
{
    field.with_allowed_values(choices.list)
}

fn only_false(field: FieldSchema) -> (res: FieldSchema)
    ensures
        res@ == contract::only_false(field@),
{
    let mut list: Vec<Value> = Vec::new();
    list.push(Value::Bool(false));
    assert(value_views(list@) =~= seq![ValueView::Bool(false)]);
    field.with_allowed_values(list)
}

fn string_map_type(id: &str) -> (res: ContextType)
    ensures
        res@ == contract::string_map_type(id@),
{
    ContextType::object(
        ObjectSchema::new(id).with_additional_fields(ContextType::plain_string()),
    )
}

pub fn path() -> (res: ContextType)
    ensures
        res@ == contract::path(),
{
    string(SemanticFormat::Path)
}

pub fn file_path() -> (res: ContextType)
    ensures
        res@ == contract::file_path(),
{
    string(SemanticFormat::FilePath)
}

pub fn directory_path() -> (res: ContextType)
    ensures
        res@ == contract::directory_path(),
{
    string(SemanticFormat::DirectoryPath)
}

pub fn url() -> (res: ContextType)
    ensures
        res@ == contract::url(),
{
    string(SemanticFormat::Url)
}

pub fn git_url() -> (res: ContextType)
    ensures
        res@ == contract::git_url(),
{
    string(SemanticFormat::GitUrl)
}

pub fn git_ref() -> (res: ContextType)
    ensures
        res@ == contract::git_ref(),
{
    string(SemanticFormat::GitRef)
}

pub fn sha256() -> (res: ContextType)
    ensures
        res@ == contract::sha256(),
{
    string(SemanticFormat::Sha256)
}

pub fn identifier() -> (res: ContextType)
    ensures
        res@ == contract::identifier(),
{
    string(SemanticFormat::Identifier)
}

pub fn package_name() -> (res: ContextType)
    ensures
        res@ == contract::package_name(),
{
    string(SemanticFormat::PackageName)
}

pub fn secret_ref() -> (res: ContextType)
    ensures
        res@ == contract::secret_ref(),
{
    string(SemanticFormat::SecretRef)
}

pub fn path_expectation_type() -> (res: ContextType)
    ensures
        res@ == contract::path_expectation_type(),
{
    ContextType::object(ObjectSchema::new("ppduster.path.expectation@1")
        .with_field("exists", nullable(ContextType::Boolean))
        .with_field("kind", one_of(nullable(ContextType::plain_string()), Choices::of("file").or("directory").or("symlink").or("other")))
        .with_field("empty", nullable(ContextType::Boolean))
        .with_field("min_size_bytes", nullable(ContextType::Integer))
        .with_field("max_size_bytes", nullable(ContextType::Integer))
        .with_field("modified_at_or_after", nullable(string(SemanticFormat::DateTime)))
        .with_field("modified_at_or_before", nullable(string(SemanticFormat::DateTime)))
        .with_field("sha256", nullable(sha256())))
}

pub fn package_registry_inputs() -> (res: ObjectSchema)
    ensures
        res@ == contract::package_registry_inputs(),
{
    let secrets = ContextType::object(ObjectSchema::new("ppduster.configuration.secret-profile@1")
        .with_field("profile", req(secret_ref()))
        .with_field("username_env", req(identifier()))
        .with_field("token_env", req(identifier())));
    let npm = ContextType::object(ObjectSchema::new("ppduster.configuration.npm@1")
        .with_field("scope", req(ContextType::plain_string()))
        .with_field("registry", req(url())));
    let nuget = ContextType::object(ObjectSchema::new("ppduster.configuration.nuget@1")
        .with_field("public_source_name", req(identifier()))
        .with_field("public_source", req(url()))
        .with_field("source_name", req(identifier()))
        .with_field("source", req(url()))
        .with_field("package_patterns", req(ContextType::array(ContextType::plain_string()))));
    ObjectSchema::new("ppduster.configuration.package-registries.inputs@1")
        .with_field("secrets", req(secrets))
        .with_field("npm", req(npm))
        .with_field("nuget", req(nuget))
}

pub fn github_repository_type() -> (res: ContextType)
    ensures
        res@ == contract::github_repository_type(),
{
    ContextType::object(ObjectSchema::new("ppduster.github.repository@1")
        .with_field("id", req(string(SemanticFormat::OpaqueId)))
        .with_field("owner", req(string(SemanticFormat::RepositoryName)))
        .with_field("name", req(string(SemanticFormat::RepositoryName)))
        .with_field("full_name", req(string(SemanticFormat::RepositoryName)))
        .with_field("https_url", req(git_url()))
        .with_field("ssh_url", req(git_url()))
        .with_field("default_branch", nullable(git_ref()))
        .with_field("private", req(ContextType::Boolean))
        .with_field("archived", req(ContextType::Boolean)))
}

pub fn github_context_type() -> (res: ContextType)
    ensures
        res@ == contract::github_context_type(),
{
    let account = ContextType::object(ObjectSchema::new("ppduster.github.account@1")
        .with_field("login", req(identifier())));
    ContextType::object(ObjectSchema::new("ppduster.github.context@1")
        .with_field("account", req(account))
        .with_field("repositories", req(ContextType::array(github_repository_type()))))
}

pub fn github_repositories_schema() -> (res: ObjectSchema)
    ensures
        res@ == contract::github_repositories_schema(),
{
    ObjectSchema::new("ppduster.github.repositories@1")
        .with_field("github", req(github_context_type()))
}

pub fn for_each_schema(id: &str) -> (res: ObjectSchema)
    ensures
        res@ == contract::for_each_schema(id@),
{
    let loop_value = ContextType::object(ObjectSchema::new("ppduster.control.loop@1")
        .with_field("source_step", req(identifier()))
        .with_field("array_path", req(ContextType::plain_string()))
        .with_field("item_alias", req(identifier()))
        .with_field("count", req(ContextType::Integer))
        .with_field("items", req(ContextType::array(ContextType::Any))));
    ObjectSchema::new(id)
        .with_field("loop", req(loop_value))
}

pub fn for_each_results_schema() -> (res: ObjectSchema)
    ensures
        res@ == contract::for_each_results_schema(),
{
    let loop_value = ContextType::object(ObjectSchema::new("ppduster.control.loop-results@1")
        .with_field("source_step", req(identifier()))
        .with_field("count", req(ContextType::Integer))
        .with_field("applied", req(ContextType::Integer))
        .with_field("satisfied", req(ContextType::Integer))
        .with_field("failed", req(ContextType::Boolean))
        .with_field("error", nullable(ContextType::plain_string())));
    ObjectSchema::new("ppduster.control.for-each-results@1")
        .with_field("loop", req(loop_value))
}

pub fn create_directory_schema() -> (res: ObjectSchema)
    ensures
        res@ == contract::create_directory_schema(),
{
    let path_value = ContextType::object(ObjectSchema::new("ppduster.filesystem.created-path@1")
        .with_field("value", req(directory_path()))
        .with_field("exists", req(ContextType::Boolean))
        .with_field("kind", req(ContextType::plain_string()))
        .with_field("created", req(ContextType::Boolean))
        .with_field("changed", req(ContextType::Boolean)));
    ObjectSchema::new("ppduster.filesystem.create-directory@1")
        .with_field("path", req(path_value))
}

pub fn path_metadata_schema() -> (res: ObjectSchema)
    ensures
        res@ == contract::path_metadata_schema(),
{
    ObjectSchema::new("ppduster.path.metadata@1")
        .with_field("path", req(path()))
        .with_field("exists", req(ContextType::Boolean))
        .with_field("kind", nullable(ContextType::plain_string()))
        .with_field("size_bytes", nullable(ContextType::Integer))
        .with_field("empty", nullable(ContextType::Boolean))
        .with_field("entry_count", nullable(ContextType::Integer))
        .with_field("modified_at", nullable(string(SemanticFormat::DateTime)))
        .with_field("created_at", nullable(string(SemanticFormat::DateTime)))
        .with_field("sha256", nullable(sha256()))
}

pub fn copy_path_schema() -> (res: ObjectSchema)
    ensures
        res@ == contract::copy_path_schema(),
{
    let path_value = ContextType::object(ObjectSchema::new("ppduster.filesystem.copy-result@1")
        .with_field("source", req(path()))
        .with_field("destination", req(path()))
        .with_field("copied", req(ContextType::Boolean))
        .with_field("changed", req(ContextType::Boolean)));
    ObjectSchema::new("ppduster.filesystem.copy-path@1")
        .with_field("path", req(path_value))
}

pub fn write_file_schema() -> (res: ObjectSchema)
    ensures
        res@ == contract::write_file_schema(),
{
    let file = ContextType::object(ObjectSchema::new("ppduster.filesystem.file-result@1")
        .with_field("path", req(file_path()))
        .with_field("bytes", req(ContextType::Integer))
        .with_field("sha256", req(sha256()))
        .with_field("created", req(ContextType::Boolean))
        .with_field("changed", req(ContextType::Boolean)));
    ObjectSchema::new("ppduster.filesystem.write-file@1")
        .with_field("file", req(file))
}

pub fn remove_path_schema() -> (res: ObjectSchema)
    ensures
        res@ == contract::remove_path_schema(),
{
    let path_value = ContextType::object(ObjectSchema::new("ppduster.filesystem.removed-path@1")
        .with_field("value", req(path()))
        .with_field("exists", req(ContextType::Boolean))
        .with_field("removed", req(ContextType::Boolean))
        .with_field("changed", req(ContextType::Boolean)));
    ObjectSchema::new("ppduster.filesystem.remove-path@1")
        .with_field("path", req(path_value))
}

pub fn repository_schema(id: &str) -> (res: ObjectSchema)
    ensures
        res@ == contract::repository_schema(id@),
{
    let repository = ContextType::object(ObjectSchema::new("ppduster.git.repository-result@1")
        .with_field("path", req(directory_path()))
        .with_field("remote_url", req(git_url()))
        .with_field("branch", nullable(git_ref()))
        .with_field("exists", req(ContextType::Boolean))
        .with_field("operation", req(ContextType::plain_string()))
        .with_field("cloned", req(ContextType::Boolean))
        .with_field("fetched", req(ContextType::Boolean))
        .with_field("updated", req(ContextType::Boolean))
        .with_field("changed", req(ContextType::Boolean)));
    ObjectSchema::new(id)
        .with_field("repository", req(repository))
}

pub fn package_schema() -> (res: ObjectSchema)
    ensures
        res@ == contract::package_schema(),
{
    let package = ContextType::object(ObjectSchema::new("ppduster.package.result@1")
        .with_field("name", req(package_name()))
        .with_field("cask", req(ContextType::Boolean))
        .with_field("installed", req(ContextType::Boolean))
        .with_field("changed", req(ContextType::Boolean)));
    ObjectSchema::new("ppduster.package.brew-install@1")
        .with_field("package", req(package))
}

pub fn process_exit_schema() -> (res: ObjectSchema)
    ensures
        res@ == contract::process_exit_schema(),
{
    ObjectSchema::new("ppduster.process.exit@1")
        .with_field("exit_code", nullable(ContextType::Integer))
        .with_field("termination_signal", nullable(ContextType::Integer))
        .with_field("accepted", req(ContextType::Boolean))
        .with_field("success_exit_codes", req(ContextType::array(ContextType::Integer)))
}

pub fn configuration_schema() -> (res: ObjectSchema)
    ensures
        res@ == contract::configuration_schema(),
{
    let configuration = ContextType::object(ObjectSchema::new("ppduster.configuration.result@1")
        .with_field("npm_scope", req(ContextType::plain_string()))
        .with_field("npm_registry", req(url()))
        .with_field("nuget_public_source", req(url()))
        .with_field("nuget_private_source", req(url()))
        .with_field("changed", req(ContextType::Boolean))
        .with_field("secrets_redacted", req(ContextType::Boolean)));
    ObjectSchema::new("ppduster.configuration.package-registries@1")
        .with_field("configuration", req(configuration))
}

pub fn download_schema() -> (res: ObjectSchema)
    ensures
        res@ == contract::download_schema(),
{
    let artifact = ContextType::object(ObjectSchema::new("ppduster.artifact.download-result@1")
        .with_field("url", req(url()))
        .with_field("path", req(file_path()))
        .with_field("sha256", req(sha256()))
        .with_field("downloaded", req(ContextType::Boolean))
        .with_field("verified", req(ContextType::Boolean))
        .with_field("changed", req(ContextType::Boolean)));
    ObjectSchema::new("ppduster.artifact.download@1")
        .with_field("artifact", req(artifact))
}

pub fn extract_schema() -> (res: ObjectSchema)
    ensures
        res@ == contract::extract_schema(),
{
    let archive = ContextType::object(ObjectSchema::new("ppduster.artifact.extract-result@1")
        .with_field("source", req(file_path()))
        .with_field("destination", req(directory_path()))
        .with_field("format", req(ContextType::plain_string()))
        .with_field("extracted", req(ContextType::Boolean))
        .with_field("changed", req(ContextType::Boolean)));
    ObjectSchema::new("ppduster.artifact.extract@1")
        .with_field("archive", req(archive))
}

pub fn system_schema() -> (res: ObjectSchema)
    ensures
        res@ == contract::system_schema(),
{
    let system = ContextType::object(ObjectSchema::new("ppduster.system.result@1")
        .with_field("platform", req(ContextType::plain_string()))
        .with_field("minimum_version", req(ContextType::plain_string()))
        .with_field("rosetta_required", req(ContextType::Boolean))
        .with_field("satisfied", req(ContextType::Boolean))
        .with_field("changed", req(ContextType::Boolean)));
    ObjectSchema::new("ppduster.system.macos-requirements@1")
        .with_field("system", req(system))
}

pub fn license_schema() -> (res: ObjectSchema)
    ensures
        res@ == contract::license_schema(),
{
    let license = ContextType::object(ObjectSchema::new("ppduster.license.result@1")
        .with_field("provider", req(ContextType::plain_string()))
        .with_field("method", req(ContextType::plain_string()))
        .with_field("activated", req(ContextType::Boolean))
        .with_field("changed", req(ContextType::Boolean))
        .with_field("secret_exposed", req(ContextType::Boolean)));
    ObjectSchema::new("ppduster.license.activation@1")
        .with_field("license", req(license))
}

pub fn one_path_input(id: &str, name: &str) -> (res: ObjectSchema)
    ensures
        res@ == contract::one_path_input(id@, name@),
{
    ObjectSchema::new(id)
        .with_field(name, req(path()))
}

pub fn run_command_inputs() -> (res: ObjectSchema)
    ensures
        res@ == contract::run_command_inputs(),
{
    ObjectSchema::new("ppduster.run-command.inputs@1")
        .with_field("program", req(ContextType::plain_string()))
        .with_field("args", opt(ContextType::array(ContextType::plain_string())))
        .with_field("cwd", nullable(directory_path()))
        .with_field("env", opt(string_map_type("ppduster.process.environment@1")))
        .with_field("shell", one_of(opt(ContextType::plain_string()), Choices::of("forbidden").or("allow")))
}

pub fn run_script_inputs() -> (res: ObjectSchema)
    ensures
        res@ == contract::run_script_inputs(),
{
    ObjectSchema::new("ppduster.run-script.inputs@1")
        .with_field("interpreter", one_of(req(ContextType::plain_string()), Choices::of("sh").or("bash").or("powershell")))
        .with_field("script", req(file_path()))
        .with_field("args", opt(ContextType::array(ContextType::plain_string())))
        .with_field("cwd", nullable(directory_path()))
        .with_field("env", opt(string_map_type("ppduster.process.environment@1")))
        .with_field("success_exit_codes", opt(ContextType::array(ContextType::Integer)))
}

pub fn install_pkg_inputs() -> (res: ObjectSchema)
    ensures
        res@ == contract::install_pkg_inputs(),
{
    ObjectSchema::new("ppduster.install-pkg.inputs@1")
        .with_field("pkg", req(file_path()))
        .with_field("target", nullable(directory_path()))
}

pub fn app_store_inputs() -> (res: ObjectSchema)
    ensures
        res@ == contract::app_store_inputs(),
{
    ObjectSchema::new("ppduster.app-store-install.inputs@1")
        .with_field("app_id", req(ContextType::Integer))
        .with_field("operation", one_of(opt(ContextType::plain_string()), Choices::of("install").or("get")))
}

pub fn bambu_studio_inputs() -> (res: ObjectSchema)
    ensures
        res@ == contract::bambu_studio_inputs(),
{
    ObjectSchema::new("ppduster.bambu-studio-release.inputs@1")
        .with_field("channel", one_of(opt(ContextType::plain_string()), Choices::of("release").or("beta")))
}

pub fn install_dmg_inputs() -> (res: ObjectSchema)
    ensures
        res@ == contract::install_dmg_inputs(),
{
    let identity = ContextType::object(ObjectSchema::new("ppduster.installation.app-identity@1")
        .with_field("bundle_identifier", req(identifier()))
        .with_field("team_identifier", req(identifier()))
        .with_field("version", req(ContextType::plain_string())));
    ObjectSchema::new("ppduster.install-dmg.inputs@1")
        .with_field("dmg", req(file_path()))
        .with_field("app_name", nullable(ContextType::plain_string()))
        .with_field("target", nullable(directory_path()))
        .with_field("identity", nullable(identity))
}

pub fn installation_schema(id: &str) -> (res: ObjectSchema)
    ensures
        res@ == contract::installation_schema(id@),
{
    let installation = ContextType::object(ObjectSchema::new("ppduster.installation.result@1")
        .with_field("source", nullable(path()))
        .with_field("target", nullable(path()))
        .with_field("app_name", nullable(ContextType::plain_string()))
        .with_field("name", nullable(ContextType::plain_string()))
        .with_field("id", nullable(ContextType::Integer))
        .with_field("operation", nullable(ContextType::plain_string()))
        .with_field("channel", nullable(ContextType::plain_string()))
        .with_field("bundle_identifier", nullable(identifier()))
        .with_field("version", nullable(ContextType::plain_string()))
        .with_field("installed", req(ContextType::Boolean))
        .with_field("changed", req(ContextType::Boolean)));
    ObjectSchema::new(id)
        .with_field("installation", opt(installation.clone()))
        .with_field("application", opt(installation))
}

pub fn checkout_inputs() -> (res: ObjectSchema)
    ensures
        res@ == contract::checkout_inputs(),
{
    ObjectSchema::new("ppduster.git.inputs@1")
        .with_field("repo", req(git_url()))
        .with_field("dest", req(directory_path()))
}

pub fn branch_inputs() -> (res: ObjectSchema)
    ensures
        res@ == contract::branch_inputs(),
{
    checkout_inputs().with_field("branch", nullable(git_ref()))
}

pub fn branch_required_inputs() -> (res: ObjectSchema)
    ensures
        res@ == contract::branch_required_inputs(),
{
    checkout_inputs().with_field("branch", req(git_ref()))
}

pub fn list_repositories_inputs() -> (res: ObjectSchema)
    ensures
        res@ == contract::list_repositories_inputs(),
{
    ObjectSchema::new("ppduster.github.repositories.inputs@1")
}

pub fn select_repositories_inputs() -> (res: ObjectSchema)
    ensures
        res@ == contract::select_repositories_inputs(),
{
    ObjectSchema::new("ppduster.github.select-repositories.inputs@1")
        .with_field("github", req(github_context_type()))
}

pub fn for_each_inputs() -> (res: ObjectSchema)
    ensures
        res@ == contract::for_each_inputs(),
{
    ObjectSchema::new("ppduster.control.for-each.inputs@1")
        .with_field("source_step", req(identifier()))
        .with_field("array_path", req(ContextType::plain_string()))
        .with_field("item", req(identifier()))
        .with_field("fields", opt(ContextType::array(ContextType::plain_string())))
}

pub fn clone_each_inputs() -> (res: ObjectSchema)
    ensures
        res@ == contract::clone_each_inputs(),
{
    branch_inputs().with_field("loop_step", req(identifier()))
}

pub fn inspect_path_inputs() -> (res: ObjectSchema)
    ensures
        res@ == contract::inspect_path_inputs(),
{
    ObjectSchema::new("ppduster.path.metadata.inputs@1")
        .with_field("path", req(path()))
        .with_field("recursive_size", opt(ContextType::Boolean))
        .with_field("sha256", opt(ContextType::Boolean))
        .with_field("expect", nullable(path_expectation_type()))
}

pub fn copy_path_inputs() -> (res: ObjectSchema)
    ensures
        res@ == contract::copy_path_inputs(),
{
    ObjectSchema::new("ppduster.filesystem.copy-path.inputs@1")
        .with_field("src", req(path()))
        .with_field("dest", req(path()))
}

pub fn write_file_inputs() -> (res: ObjectSchema)
    ensures
        res@ == contract::write_file_inputs(),
{
    ObjectSchema::new("ppduster.filesystem.write-file.inputs@1")
        .with_field("path", req(file_path()))
        .with_field("content", req(ContextType::plain_string()))
        .with_field("on_conflict", one_of(opt(ContextType::plain_string()), Choices::of("fail").or("replace")))
}

pub fn brew_install_inputs() -> (res: ObjectSchema)
    ensures
        res@ == contract::brew_install_inputs(),
{
    ObjectSchema::new("ppduster.package.brew-install.inputs@1")
        .with_field("package", req(package_name()))
        .with_field("cask", opt(ContextType::Boolean))
}

pub fn download_inputs() -> (res: ObjectSchema)
    ensures
        res@ == contract::download_inputs(),
{
    ObjectSchema::new("ppduster.artifact.download.inputs@1")
        .with_field("url", req(url()))
        .with_field("dest", req(file_path()))
        .with_field("checksum", req(ContextType::object(ObjectSchema::new("ppduster.artifact.checksum@1")
        .with_field("sha256", req(sha256())))))
}

pub fn extract_inputs() -> (res: ObjectSchema)
    ensures
        res@ == contract::extract_inputs(),
{
    ObjectSchema::new("ppduster.artifact.extract.inputs@1")
        .with_field("src", req(file_path()))
        .with_field("dest", req(directory_path()))
        .with_field("format", one_of(opt(ContextType::plain_string()), Choices::of("auto").or("zip").or("tar").or("tar-gz").or("tar-bz2").or("tar-xz")))
        .with_field("max_unpacked_bytes", opt(ContextType::Integer))
}

pub fn macos_inputs() -> (res: ObjectSchema)
    ensures
        res@ == contract::macos_inputs(),
{
    ObjectSchema::new("ppduster.system.macos-requirements.inputs@1")
        .with_field("minimum_version", req(ContextType::plain_string()))
        .with_field("require_rosetta_on_apple_silicon", opt(ContextType::Boolean))
}

pub fn license_inputs() -> (res: ObjectSchema)
    ensures
        res@ == contract::license_inputs(),
{
    ObjectSchema::new("ppduster.license.activation.inputs@1")
        .with_field("provider", one_of(req(ContextType::plain_string()), Choices::of("light-burn")))
        .with_field("method", one_of(req(ContextType::plain_string()), Choices::of("vendor-ui")))
}

pub fn no_preview_inputs() -> (res: ObjectSchema)
    ensures
        res@ == contract::no_preview_inputs(),
{
    ObjectSchema::new("ppduster.github.preview-repositories.inputs@1")
}

pub fn no_selection_inputs() -> (res: ObjectSchema)
    ensures
        res@ == contract::no_selection_inputs(),
{
    ObjectSchema::new("ppduster.array.selection.inputs@1")
}

pub fn array_selection_schema(item_type: ContextType) -> (res: ObjectSchema)
    ensures
        res@ == contract::array_selection_schema(item_type@),
{
    ObjectSchema::new("ppduster.array.selection@1")
        .with_field("items", req(ContextType::array(item_type)))
}

pub fn public_repository_type() -> (res: ContextType)
    ensures
        res@ == contract::public_repository_type(),
{
    ContextType::object(ObjectSchema::new("ppduster.github.repository@1")
        .with_field("id", req(string(SemanticFormat::OpaqueId)))
        .with_field("owner", req(string(SemanticFormat::RepositoryName)))
        .with_field("name", req(string(SemanticFormat::RepositoryName)))
        .with_field("full_name", req(string(SemanticFormat::RepositoryName)))
        .with_field("https_url", req(git_url()))
        .with_field("ssh_url", req(git_url()))
        .with_field("default_branch", nullable(git_ref()))
        .with_field("private", only_false(req(ContextType::Boolean)))
        .with_field("archived", req(ContextType::Boolean)))
}

pub fn selected_repositories_schema() -> (res: ObjectSchema)
    ensures
        res@ == contract::selected_repositories_schema(),
{
    ObjectSchema::new("ppduster.github.selected-repositories@1")
        .with_field("repositories", req(ContextType::array(public_repository_type())))
}

} // verus!

//! The registry of blocks: what each of them is called, takes and yields.
use vstd::prelude::*;

use crate::binding::binding_views;
use crate::block_schema;
use crate::context::Binding;
use crate::contract;
use crate::json::{value_views, Value, ValueView};
use crate::kind::{
    all_kinds, block_catalog, block_policy_capabilities, catalog_of, policy_of, ActionKind,
    BlockCatalog, BlockPolicyCapabilities,
};
use crate::resolve::fields_sensitivity;
use crate::schema::{
    ContextType, FieldView, ObjectSchema, SchemaView, SemanticFormat, Sensitivity, TypeView,
};
use crate::task::{
    Action, ActionView, ActivateLicenseAction, ActivateLicenseActionView, AppStoreInstallAction,
    AppStoreInstallActionView, AppStoreOperation, ArchiveFormat, AuthPolicy,
    BambuStudioReleaseAction, BambuStudioReleaseActionView, Checksum, ChecksumView,
    CopyPathAction, CopyPathActionView, CreateDirectoryAction, CreateDirectoryActionView,
    ElevationPolicy, EncryptedSecretsSpec, EncryptedSecretsSpecView, GithubAccountInput,
    GithubAccountInputView, GithubContextInput, GithubContextInputView, GithubRepositoryInput,
    GithubRepositoryInputView, InspectPathAction, InspectPathActionView, LicenseMethod,
    LicenseProvider, NpmRegistryFileSpec, NpmRegistryFileSpecView, NugetRegistryFileSpec,
    NugetRegistryFileSpecView, ReleaseChannel, RemovePathAction, RemovePathActionView,
    ScriptInterpreter, ShellMode, Step, StepView, WriteConflictPolicy, WriteFileAction,
    WriteFileActionView, github_repository_input_views, text_entries,
};
use crate::text::{owned, text_views};
use crate::text_map;
use crate::text_map::TextMap;

verus! {

#[derive(Debug, PartialEq)]
pub struct BlockDefinition {
    pub kind: ActionKind,
    pub schema_version: u32,
    pub title: String,
    pub category: String,
    /// Stable action ID followed by curated English and Russian search aliases.
    ///
    /// This metadata is descriptive only: it helps catalog clients find a
    /// block and never changes the persisted task or its execution semantics.
    pub search_terms: Vec<String>,
    pub input_schema: ObjectSchema,
    pub output_schema: ObjectSchema,
    pub read_only: bool,
    pub may_use_secrets: bool,
    /// Policies that the visual editor may attach to this block.
    ///
    /// Action validation remains the final authority, but publishing the
    /// capability contract beside the input/output schemas prevents a
    /// schema-driven editor from offering combinations that are known to be
    /// invalid (for example GitHub repository discovery with sudo).
    pub policy: BlockPolicyCapabilities,
    pub catalog: BlockCatalog,
}

pub struct DefinitionView {
    pub kind: ActionKind,
    pub schema_version: u32,
    pub title: Seq<char>,
    pub category: Seq<char>,
    pub search_terms: Seq<Seq<char>>,
    pub input_schema: SchemaView,
    pub output_schema: SchemaView,
    pub read_only: bool,
    pub may_use_secrets: bool,
    pub policy: BlockPolicyCapabilities,
    pub catalog: BlockCatalog,
}

impl BlockDefinition {
    pub open spec fn view(&self) -> DefinitionView {
        DefinitionView {
            kind: self.kind,
            schema_version: self.schema_version,
            title: self.title@,
            category: self.category@,
            search_terms: text_views(self.search_terms@),
            input_schema: self.input_schema@,
            output_schema: self.output_schema@,
            read_only: self.read_only,
            may_use_secrets: self.may_use_secrets,
            policy: self.policy,
            catalog: self.catalog,
        }
    }

    pub fn output_schema_id(&self) -> (res: Option<&str>)
        ensures
            match res {
                Some(id) => self@.output_schema.id == Some(id@),
                None => self@.output_schema.id is None,
            },
    {
        match &self.output_schema.id {
            Some(id) => Some(id.as_str()),
            None => None,
        }
    }
}

// ---------------------------------------------------------------------------
// Names
// ---------------------------------------------------------------------------
pub open spec fn title_of(kind: ActionKind) -> Seq<char> {
    match kind {
        ActionKind::GithubListRepositories => "Получить репозитории аккаунта"@,
        ActionKind::GithubPreviewRepositories => "Выбрать репозитории GitHub"@,
        ActionKind::GithubSelectRepositories => "Выбрать репозитории GitHub"@,
        ActionKind::SelectArrayItems => "Выбрать элементы массива"@,
        ActionKind::ForEach => "Для каждого элемента"@,
        ActionKind::ForEachGitCloneIfMissing => "Клонировать каждый репозиторий"@,
        ActionKind::CreateDirectory => "Создать папку"@,
        ActionKind::InspectPath => "Проверить путь"@,
        ActionKind::CopyPath => "Копировать путь"@,
        ActionKind::WriteFile => "Записать файл"@,
        ActionKind::RemovePath => "Переместить в корзину"@,
        ActionKind::GitClone => "Клонировать или синхронизировать"@,
        ActionKind::GitInspect => "Проверить Git-репозиторий"@,
        ActionKind::GitCloneIfMissing => "Клонировать, если отсутствует"@,
        ActionKind::GitFetch => "Получить remote-ветку"@,
        ActionKind::GitFastForward => "Актуализировать ветку"@,
        ActionKind::BrewInstall => "Установить Homebrew-пакет"@,
        ActionKind::RunCommand => "Выполнить команду"@,
        ActionKind::RunScript => "Выполнить скрипт"@,
        ActionKind::ConfigurePackageRegistryFiles => "Настроить package registries"@,
        ActionKind::DownloadFile => "Скачать файл"@,
        ActionKind::ExtractArchive => "Распаковать архив"@,
        ActionKind::InstallDmg => "Установить DMG"@,
        ActionKind::InstallPkg => "Установить PKG"@,
        ActionKind::MacosRequirements => "Проверить требования macOS"@,
        ActionKind::AppStoreInstall => "Установить из App Store"@,
        ActionKind::BambuStudioRelease => "Установить Bambu Studio"@,
        ActionKind::ActivateLicense => "Активировать лицензию"@,
    }
}

fn title(kind: ActionKind) -> (res: String)
    ensures
        res@ == title_of(kind),
{
    match kind {
        ActionKind::GithubListRepositories => owned("Получить репозитории аккаунта"),
        ActionKind::GithubPreviewRepositories => owned("Выбрать репозитории GitHub"),
        ActionKind::GithubSelectRepositories => owned("Выбрать репозитории GitHub"),
        ActionKind::SelectArrayItems => owned("Выбрать элементы массива"),
        ActionKind::ForEach => owned("Для каждого элемента"),
        ActionKind::ForEachGitCloneIfMissing => owned("Клонировать каждый репозиторий"),
        ActionKind::CreateDirectory => owned("Создать папку"),
        ActionKind::InspectPath => owned("Проверить путь"),
        ActionKind::CopyPath => owned("Копировать путь"),
        ActionKind::WriteFile => owned("Записать файл"),
        ActionKind::RemovePath => owned("Переместить в корзину"),
        ActionKind::GitClone => owned("Клонировать или синхронизировать"),
        ActionKind::GitInspect => owned("Проверить Git-репозиторий"),
        ActionKind::GitCloneIfMissing => owned("Клонировать, если отсутствует"),
        ActionKind::GitFetch => owned("Получить remote-ветку"),
        ActionKind::GitFastForward => owned("Актуализировать ветку"),
        ActionKind::BrewInstall => owned("Установить Homebrew-пакет"),
        ActionKind::RunCommand => owned("Выполнить команду"),
        ActionKind::RunScript => owned("Выполнить скрипт"),
        ActionKind::ConfigurePackageRegistryFiles => owned("Настроить package registries"),
        ActionKind::DownloadFile => owned("Скачать файл"),
        ActionKind::ExtractArchive => owned("Распаковать архив"),
        ActionKind::InstallDmg => owned("Установить DMG"),
        ActionKind::InstallPkg => owned("Установить PKG"),
        ActionKind::MacosRequirements => owned("Проверить требования macOS"),
        ActionKind::AppStoreInstall => owned("Установить из App Store"),
        ActionKind::BambuStudioRelease => owned("Установить Bambu Studio"),
        ActionKind::ActivateLicense => owned("Активировать лицензию"),
    }
}

pub open spec fn category_of(kind: ActionKind) -> Seq<char> {
    match kind {
        ActionKind::GithubListRepositories => "GitHub"@,
        ActionKind::GithubPreviewRepositories => "GitHub"@,
        ActionKind::GithubSelectRepositories => "GitHub"@,
        ActionKind::SelectArrayItems => "Данные"@,
        ActionKind::ForEach => "Логика"@,
        ActionKind::ForEachGitCloneIfMissing => "Логика"@,
        ActionKind::CreateDirectory => "Файлы"@,
        ActionKind::InspectPath => "Файлы"@,
        ActionKind::CopyPath => "Файлы"@,
        ActionKind::WriteFile => "Файлы"@,
        ActionKind::RemovePath => "Файлы"@,
        ActionKind::GitClone => "Git"@,
        ActionKind::GitInspect => "Git"@,
        ActionKind::GitCloneIfMissing => "Git"@,
        ActionKind::GitFetch => "Git"@,
        ActionKind::GitFastForward => "Git"@,
        ActionKind::BrewInstall => "Пакеты"@,
        ActionKind::RunCommand => "Процессы"@,
        ActionKind::RunScript => "Процессы"@,
        ActionKind::ConfigurePackageRegistryFiles => "Конфигурация"@,
        ActionKind::DownloadFile => "Артефакты"@,
        ActionKind::ExtractArchive => "Артефакты"@,
        ActionKind::InstallDmg => "Установка"@,
        ActionKind::InstallPkg => "Установка"@,
        ActionKind::MacosRequirements => "Система"@,
        ActionKind::AppStoreInstall => "Установка"@,
        ActionKind::BambuStudioRelease => "Установка"@,
        ActionKind::ActivateLicense => "Лицензия"@,
    }
}

fn category(kind: ActionKind) -> (res: String)
    ensures
        res@ == category_of(kind),
{
    match kind {
        ActionKind::GithubListRepositories
        | ActionKind::GithubPreviewRepositories
        | ActionKind::GithubSelectRepositories => owned("GitHub"),
        ActionKind::SelectArrayItems => owned("Данные"),
        ActionKind::ForEach
        | ActionKind::ForEachGitCloneIfMissing => owned("Логика"),
        ActionKind::CreateDirectory
        | ActionKind::InspectPath
        | ActionKind::CopyPath
        | ActionKind::WriteFile
        | ActionKind::RemovePath => owned("Файлы"),
        ActionKind::GitClone
        | ActionKind::GitInspect
        | ActionKind::GitCloneIfMissing
        | ActionKind::GitFetch
        | ActionKind::GitFastForward => owned("Git"),
        ActionKind::BrewInstall => owned("Пакеты"),
        ActionKind::RunCommand
        | ActionKind::RunScript => owned("Процессы"),
        ActionKind::ConfigurePackageRegistryFiles => owned("Конфигурация"),
        ActionKind::DownloadFile
        | ActionKind::ExtractArchive => owned("Артефакты"),
        ActionKind::InstallDmg
        | ActionKind::InstallPkg
        | ActionKind::AppStoreInstall
        | ActionKind::BambuStudioRelease => owned("Установка"),
        ActionKind::MacosRequirements => owned("Система"),
        ActionKind::ActivateLicense => owned("Лицензия"),
    }
}

/// Words under which a block is found, besides its identity.
pub open spec fn aliases_of(kind: ActionKind) -> Seq<Seq<char>> {
    match kind {
        ActionKind::GithubListRepositories => seq!["github"@]
            .push("гитхаб"@)
            .push("гит"@)
            .push("list repositories"@)
            .push("account repositories"@)
            .push("репозитории github"@)
            .push("получить репозитории"@)
            .push("репозитории аккаунта"@),
        ActionKind::GithubPreviewRepositories => seq!["github"@]
            .push("гитхаб"@)
            .push("repository snapshot"@)
            .push("saved repositories"@)
            .push("выбрать репозитории"@)
            .push("сохраненные репозитории"@)
            .push("снимок репозиториев"@),
        ActionKind::GithubSelectRepositories => seq!["github"@]
            .push("гитхаб"@)
            .push("гит"@)
            .push("select repositories"@)
            .push("repository picker"@)
            .push("выбрать репозитории"@)
            .push("выбор репозиториев"@)
            .push("репозитории github"@),
        ActionKind::SelectArrayItems => seq!["array"@]
            .push("data selection"@)
            .push("select array items"@)
            .push("массив"@)
            .push("выбрать элементы массива"@)
            .push("выбор данных"@),
        ActionKind::ForEach => seq!["for each"@]
            .push("foreach"@)
            .push("loop"@)
            .push("для каждого"@)
            .push("цикл"@)
            .push("перебор"@),
        ActionKind::ForEachGitCloneIfMissing => seq!["гит"@]
            .push("clone every repository"@)
            .push("git repository loop"@)
            .push("clone if missing loop"@)
            .push("клонировать каждый репозиторий"@)
            .push("цикл репозиториев git"@)
            .push("клонировать отсутствующие репозитории"@),
        ActionKind::CreateDirectory => seq!["create directory"@]
            .push("create folder"@)
            .push("filesystem directory"@)
            .push("создать папку"@)
            .push("создать каталог"@)
            .push("файловая система"@),
        ActionKind::InspectPath => seq!["inspect path"@]
            .push("path metadata"@)
            .push("filesystem check"@)
            .push("проверить путь"@)
            .push("метаданные пути"@)
            .push("проверка файла или папки"@),
        ActionKind::CopyPath => seq!["copy path"@]
            .push("copy file"@)
            .push("copy directory"@)
            .push("копировать путь"@)
            .push("копировать файл"@)
            .push("копировать папку"@),
        ActionKind::WriteFile => seq!["write file"@]
            .push("file content"@)
            .push("create text file"@)
            .push("записать файл"@)
            .push("содержимое файла"@)
            .push("создать текстовый файл"@),
        ActionKind::RemovePath => seq!["remove path"@]
            .push("move to trash"@)
            .push("delete file"@)
            .push("удалить путь"@)
            .push("переместить в корзину"@)
            .push("удалить файл или папку"@),
        ActionKind::GitClone => seq!["гит"@]
            .push("git clone"@)
            .push("clone repository"@)
            .push("sync repository"@)
            .push("клонировать git"@)
            .push("клонировать репозиторий"@)
            .push("синхронизировать репозиторий"@),
        ActionKind::GitInspect => seq!["гит"@]
            .push("git inspect"@)
            .push("repository status"@)
            .push("inspect repository"@)
            .push("проверить git"@)
            .push("состояние репозитория"@)
            .push("проверить репозиторий"@),
        ActionKind::GitCloneIfMissing => seq!["гит"@]
            .push("git clone if missing"@)
            .push("conditional clone"@)
            .push("clone absent repository"@)
            .push("клонировать если отсутствует"@)
            .push("условное клонирование"@)
            .push("клонировать отсутствующий репозиторий"@),
        ActionKind::GitFetch => seq!["гит"@]
            .push("git fetch"@)
            .push("fetch remote branch"@)
            .push("download git refs"@)
            .push("получить remote ветку"@)
            .push("загрузить ветку git"@)
            .push("получить изменения репозитория"@),
        ActionKind::GitFastForward => seq!["гит"@]
            .push("git fast forward"@)
            .push("update branch"@)
            .push("fast forward branch"@)
            .push("актуализировать ветку"@)
            .push("обновить ветку git"@)
            .push("перемотать ветку вперед"@),
        ActionKind::BrewInstall => seq!["homebrew"@]
            .push("brew install"@)
            .push("install package"@)
            .push("установить homebrew пакет"@)
            .push("установить пакет brew"@)
            .push("пакетный менеджер"@),
        ActionKind::RunCommand => seq!["run command"@]
            .push("execute command"@)
            .push("shell process"@)
            .push("выполнить команду"@)
            .push("запустить процесс"@)
            .push("командная оболочка"@),
        ActionKind::RunScript => seq!["run script"@]
            .push("execute script"@)
            .push("shell script"@)
            .push("выполнить скрипт"@)
            .push("запустить скрипт"@)
            .push("сценарий командной оболочки"@),
        ActionKind::ConfigurePackageRegistryFiles => seq!["package registry"@]
            .push("npm registry"@)
            .push("nuget registry"@)
            .push("реестр пакетов"@)
            .push("настроить npm"@)
            .push("настроить nuget"@),
        ActionKind::DownloadFile => seq!["download file"@]
            .push("http download"@)
            .push("download artifact"@)
            .push("скачать файл"@)
            .push("загрузка по url"@)
            .push("скачать артефакт"@),
        ActionKind::ExtractArchive => seq!["extract archive"@]
            .push("unpack zip"@)
            .push("unpack tar"@)
            .push("распаковать архив"@)
            .push("извлечь архив"@)
            .push("распаковать zip или tar"@),
        ActionKind::InstallDmg => seq!["install dmg"@]
            .push("macos disk image"@)
            .push("dmg installer"@)
            .push("установить dmg"@)
            .push("образ диска macos"@)
            .push("установщик dmg"@),
        ActionKind::InstallPkg => seq!["install pkg"@]
            .push("macos installer package"@)
            .push("pkg installer"@)
            .push("установить pkg"@)
            .push("пакет установщика macos"@)
            .push("установщик pkg"@),
        ActionKind::MacosRequirements => seq!["macos requirements"@]
            .push("system check"@)
            .push("rosetta requirement"@)
            .push("требования macos"@)
            .push("проверка системы"@)
            .push("требование rosetta"@),
        ActionKind::AppStoreInstall => seq!["app store install"@]
            .push("mac app store"@)
            .push("install store app"@)
            .push("установить из app store"@)
            .push("магазин приложений mac"@)
            .push("установить приложение из магазина"@),
        ActionKind::BambuStudioRelease => seq!["bambu studio"@]
            .push("install bambu studio"@)
            .push("update bambu studio"@)
            .push("установить bambu studio"@)
            .push("обновить bambu studio"@)
            .push("релиз bambu studio"@),
        ActionKind::ActivateLicense => seq!["activate license"@]
            .push("license activation"@)
            .push("vendor license ui"@)
            .push("активировать лицензию"@)
            .push("активация лицензии"@)
            .push("интерфейс лицензии поставщика"@),
    }
}

pub open spec fn search_terms_of(kind: ActionKind) -> Seq<Seq<char>> {
    seq![kind.name()] + aliases_of(kind)
}

/// A list of texts that grows.
struct Terms {
    list: Vec<String>,
}

impl Terms {
    spec fn view(&self) -> Seq<Seq<char>> {
        text_views(self.list@)
    }

    fn of(term: &str) -> (res: Self)
        ensures
            res@ == seq![term@],
    {
        let mut list: Vec<String> = Vec::new();
        list.push(owned(term));
        assert(text_views(list@) =~= seq![term@]);
        Terms { list }
    }

    fn also(self, term: &str) -> (res: Self)
        ensures
            res@ == self@.push(term@),
    {
        let ghost before = self@;
        let mut list = self.list;
        list.push(owned(term));
        assert(text_views(list@) =~= before.push(term@));
        Terms { list }
    }
}

fn aliases(kind: ActionKind) -> (res: Terms)
    ensures
        res@ == aliases_of(kind),
{
    match kind {
        ActionKind::GithubListRepositories => Terms::of("github")
            .also("гитхаб")
            .also("гит")
            .also("list repositories")
            .also("account repositories")
            .also("репозитории github")
            .also("получить репозитории")
            .also("репозитории аккаунта"),
        ActionKind::GithubPreviewRepositories => Terms::of("github")
            .also("гитхаб")
            .also("repository snapshot")
            .also("saved repositories")
            .also("выбрать репозитории")
            .also("сохраненные репозитории")
            .also("снимок репозиториев"),
        ActionKind::GithubSelectRepositories => Terms::of("github")
            .also("гитхаб")
            .also("гит")
            .also("select repositories")
            .also("repository picker")
            .also("выбрать репозитории")
            .also("выбор репозиториев")
            .also("репозитории github"),
        ActionKind::SelectArrayItems => Terms::of("array")
            .also("data selection")
            .also("select array items")
            .also("массив")
            .also("выбрать элементы массива")
            .also("выбор данных"),
        ActionKind::ForEach => Terms::of("for each")
            .also("foreach")
            .also("loop")
            .also("для каждого")
            .also("цикл")
            .also("перебор"),
        ActionKind::ForEachGitCloneIfMissing => Terms::of("гит")
            .also("clone every repository")
            .also("git repository loop")
            .also("clone if missing loop")
            .also("клонировать каждый репозиторий")
            .also("цикл репозиториев git")
            .also("клонировать отсутствующие репозитории"),
        ActionKind::CreateDirectory => Terms::of("create directory")
            .also("create folder")
            .also("filesystem directory")
            .also("создать папку")
            .also("создать каталог")
            .also("файловая система"),
        ActionKind::InspectPath => Terms::of("inspect path")
            .also("path metadata")
            .also("filesystem check")
            .also("проверить путь")
            .also("метаданные пути")
            .also("проверка файла или папки"),
        ActionKind::CopyPath => Terms::of("copy path")
            .also("copy file")
            .also("copy directory")
            .also("копировать путь")
            .also("копировать файл")
            .also("копировать папку"),
        ActionKind::WriteFile => Terms::of("write file")
            .also("file content")
            .also("create text file")
            .also("записать файл")
            .also("содержимое файла")
            .also("создать текстовый файл"),
        ActionKind::RemovePath => Terms::of("remove path")
            .also("move to trash")
            .also("delete file")
            .also("удалить путь")
            .also("переместить в корзину")
            .also("удалить файл или папку"),
        ActionKind::GitClone => Terms::of("гит")
            .also("git clone")
            .also("clone repository")
            .also("sync repository")
            .also("клонировать git")
            .also("клонировать репозиторий")
            .also("синхронизировать репозиторий"),
        ActionKind::GitInspect => Terms::of("гит")
            .also("git inspect")
            .also("repository status")
            .also("inspect repository")
            .also("проверить git")
            .also("состояние репозитория")
            .also("проверить репозиторий"),
        ActionKind::GitCloneIfMissing => Terms::of("гит")
            .also("git clone if missing")
            .also("conditional clone")
            .also("clone absent repository")
            .also("клонировать если отсутствует")
            .also("условное клонирование")
            .also("клонировать отсутствующий репозиторий"),
        ActionKind::GitFetch => Terms::of("гит")
            .also("git fetch")
            .also("fetch remote branch")
            .also("download git refs")
            .also("получить remote ветку")
            .also("загрузить ветку git")
            .also("получить изменения репозитория"),
        ActionKind::GitFastForward => Terms::of("гит")
            .also("git fast forward")
            .also("update branch")
            .also("fast forward branch")
            .also("актуализировать ветку")
            .also("обновить ветку git")
            .also("перемотать ветку вперед"),
        ActionKind::BrewInstall => Terms::of("homebrew")
            .also("brew install")
            .also("install package")
            .also("установить homebrew пакет")
            .also("установить пакет brew")
            .also("пакетный менеджер"),
        ActionKind::RunCommand => Terms::of("run command")
            .also("execute command")
            .also("shell process")
            .also("выполнить команду")
            .also("запустить процесс")
            .also("командная оболочка"),
        ActionKind::RunScript => Terms::of("run script")
            .also("execute script")
            .also("shell script")
            .also("выполнить скрипт")
            .also("запустить скрипт")
            .also("сценарий командной оболочки"),
        ActionKind::ConfigurePackageRegistryFiles => Terms::of("package registry")
            .also("npm registry")
            .also("nuget registry")
            .also("реестр пакетов")
            .also("настроить npm")
            .also("настроить nuget"),
        ActionKind::DownloadFile => Terms::of("download file")
            .also("http download")
            .also("download artifact")
            .also("скачать файл")
            .also("загрузка по url")
            .also("скачать артефакт"),
        ActionKind::ExtractArchive => Terms::of("extract archive")
            .also("unpack zip")
            .also("unpack tar")
            .also("распаковать архив")
            .also("извлечь архив")
            .also("распаковать zip или tar"),
        ActionKind::InstallDmg => Terms::of("install dmg")
            .also("macos disk image")
            .also("dmg installer")
            .also("установить dmg")
            .also("образ диска macos")
            .also("установщик dmg"),
        ActionKind::InstallPkg => Terms::of("install pkg")
            .also("macos installer package")
            .also("pkg installer")
            .also("установить pkg")
            .also("пакет установщика macos")
            .also("установщик pkg"),
        ActionKind::MacosRequirements => Terms::of("macos requirements")
            .also("system check")
            .also("rosetta requirement")
            .also("требования macos")
            .also("проверка системы")
            .also("требование rosetta"),
        ActionKind::AppStoreInstall => Terms::of("app store install")
            .also("mac app store")
            .also("install store app")
            .also("установить из app store")
            .also("магазин приложений mac")
            .also("установить приложение из магазина"),
        ActionKind::BambuStudioRelease => Terms::of("bambu studio")
            .also("install bambu studio")
            .also("update bambu studio")
            .also("установить bambu studio")
            .also("обновить bambu studio")
            .also("релиз bambu studio"),
        ActionKind::ActivateLicense => Terms::of("activate license")
            .also("license activation")
            .also("vendor license ui")
            .also("активировать лицензию")
            .also("активация лицензии")
            .also("интерфейс лицензии поставщика"),
    }
}

fn block_search_terms(kind: ActionKind) -> (res: Vec<String>)
    ensures
        text_views(res@) == search_terms_of(kind),
{
    let names = aliases(kind).list;
    let ghost views = text_views(names@);
    let mut res: Vec<String> = Vec::new();
    res.push(owned(kind.id()));
    let mut i: usize = 0;
    while i < names.len()
        invariant
            i <= names@.len(),
            res@.len() == i + 1,
            res@[0]@ == kind.name(),
            forall|j: int| 1 <= j <= i ==> (#[trigger] res@[j])@ == names@[j - 1]@,
        decreases names@.len() - i,
    {
        res.push(names[i].clone());
        i = i + 1;
    }
    assert(text_views(res@) =~= seq![kind.name()] + views);
    res
}

// ---------------------------------------------------------------------------
// Definitions
// ---------------------------------------------------------------------------
pub open spec fn inputs_of(kind: ActionKind) -> SchemaView {
    match kind {
        ActionKind::GithubListRepositories => contract::list_repositories_inputs(),
        ActionKind::GithubPreviewRepositories => contract::no_preview_inputs(),
        ActionKind::GithubSelectRepositories => contract::select_repositories_inputs(),
        ActionKind::SelectArrayItems => contract::no_selection_inputs(),
        ActionKind::ForEach => contract::for_each_inputs(),
        ActionKind::ForEachGitCloneIfMissing => contract::clone_each_inputs(),
        ActionKind::CreateDirectory => contract::one_path_input("ppduster.filesystem.create-directory.inputs@1"@, "path"@),
        ActionKind::InspectPath => contract::inspect_path_inputs(),
        ActionKind::CopyPath => contract::copy_path_inputs(),
        ActionKind::WriteFile => contract::write_file_inputs(),
        ActionKind::RemovePath => contract::one_path_input("ppduster.filesystem.remove-path.inputs@1"@, "path"@),
        ActionKind::GitClone => contract::branch_inputs(),
        ActionKind::GitInspect => contract::checkout_inputs(),
        ActionKind::GitCloneIfMissing => contract::branch_inputs(),
        ActionKind::GitFetch => contract::branch_required_inputs(),
        ActionKind::GitFastForward => contract::branch_required_inputs(),
        ActionKind::BrewInstall => contract::brew_install_inputs(),
        ActionKind::RunCommand => contract::run_command_inputs(),
        ActionKind::RunScript => contract::run_script_inputs(),
        ActionKind::ConfigurePackageRegistryFiles => contract::package_registry_inputs(),
        ActionKind::DownloadFile => contract::download_inputs(),
        ActionKind::ExtractArchive => contract::extract_inputs(),
        ActionKind::InstallDmg => contract::install_dmg_inputs(),
        ActionKind::InstallPkg => contract::install_pkg_inputs(),
        ActionKind::MacosRequirements => contract::macos_inputs(),
        ActionKind::AppStoreInstall => contract::app_store_inputs(),
        ActionKind::BambuStudioRelease => contract::bambu_studio_inputs(),
        ActionKind::ActivateLicense => contract::license_inputs(),
    }
}

fn inputs(kind: ActionKind) -> (res: ObjectSchema)
    ensures
        res@ == inputs_of(kind),
{
    match kind {
        ActionKind::GithubListRepositories => block_schema::list_repositories_inputs(),
        ActionKind::GithubPreviewRepositories => block_schema::no_preview_inputs(),
        ActionKind::GithubSelectRepositories => block_schema::select_repositories_inputs(),
        ActionKind::SelectArrayItems => block_schema::no_selection_inputs(),
        ActionKind::ForEach => block_schema::for_each_inputs(),
        ActionKind::ForEachGitCloneIfMissing => block_schema::clone_each_inputs(),
        ActionKind::CreateDirectory => block_schema::one_path_input("ppduster.filesystem.create-directory.inputs@1", "path"),
        ActionKind::InspectPath => block_schema::inspect_path_inputs(),
        ActionKind::CopyPath => block_schema::copy_path_inputs(),
        ActionKind::WriteFile => block_schema::write_file_inputs(),
        ActionKind::RemovePath => block_schema::one_path_input("ppduster.filesystem.remove-path.inputs@1", "path"),
        ActionKind::GitClone => block_schema::branch_inputs(),
        ActionKind::GitInspect => block_schema::checkout_inputs(),
        ActionKind::GitCloneIfMissing => block_schema::branch_inputs(),
        ActionKind::GitFetch => block_schema::branch_required_inputs(),
        ActionKind::GitFastForward => block_schema::branch_required_inputs(),
        ActionKind::BrewInstall => block_schema::brew_install_inputs(),
        ActionKind::RunCommand => block_schema::run_command_inputs(),
        ActionKind::RunScript => block_schema::run_script_inputs(),
        ActionKind::ConfigurePackageRegistryFiles => block_schema::package_registry_inputs(),
        ActionKind::DownloadFile => block_schema::download_inputs(),
        ActionKind::ExtractArchive => block_schema::extract_inputs(),
        ActionKind::InstallDmg => block_schema::install_dmg_inputs(),
        ActionKind::InstallPkg => block_schema::install_pkg_inputs(),
        ActionKind::MacosRequirements => block_schema::macos_inputs(),
        ActionKind::AppStoreInstall => block_schema::app_store_inputs(),
        ActionKind::BambuStudioRelease => block_schema::bambu_studio_inputs(),
        ActionKind::ActivateLicense => block_schema::license_inputs(),
    }
}

pub open spec fn outputs_of(kind: ActionKind) -> SchemaView {
    match kind {
        ActionKind::GithubListRepositories => contract::github_repositories_schema(),
        ActionKind::GithubPreviewRepositories => contract::selected_repositories_schema(),
        ActionKind::GithubSelectRepositories => contract::github_repositories_schema(),
        ActionKind::SelectArrayItems => contract::array_selection_schema(TypeView::Any),
        ActionKind::ForEach => contract::for_each_schema("ppduster.control.for-each@1"@),
        ActionKind::ForEachGitCloneIfMissing => contract::for_each_results_schema(),
        ActionKind::CreateDirectory => contract::create_directory_schema(),
        ActionKind::InspectPath => contract::path_metadata_schema(),
        ActionKind::CopyPath => contract::copy_path_schema(),
        ActionKind::WriteFile => contract::write_file_schema(),
        ActionKind::RemovePath => contract::remove_path_schema(),
        ActionKind::GitClone => contract::repository_schema("ppduster.git.clone@1"@),
        ActionKind::GitInspect => contract::repository_schema("ppduster.git.inspect@1"@),
        ActionKind::GitCloneIfMissing => contract::repository_schema("ppduster.git.clone-if-missing@1"@),
        ActionKind::GitFetch => contract::repository_schema("ppduster.git.fetch@1"@),
        ActionKind::GitFastForward => contract::repository_schema("ppduster.git.fast-forward@1"@),
        ActionKind::BrewInstall => contract::package_schema(),
        ActionKind::RunCommand => contract::process_exit_schema(),
        ActionKind::RunScript => contract::process_exit_schema(),
        ActionKind::ConfigurePackageRegistryFiles => contract::configuration_schema(),
        ActionKind::DownloadFile => contract::download_schema(),
        ActionKind::ExtractArchive => contract::extract_schema(),
        ActionKind::InstallDmg => contract::installation_schema("ppduster.installation.dmg@1"@),
        ActionKind::InstallPkg => contract::installation_schema("ppduster.installation.pkg@1"@),
        ActionKind::MacosRequirements => contract::system_schema(),
        ActionKind::AppStoreInstall => contract::installation_schema("ppduster.installation.app-store@1"@),
        ActionKind::BambuStudioRelease => contract::installation_schema("ppduster.installation.bambu-studio@1"@),
        ActionKind::ActivateLicense => contract::license_schema(),
    }
}

fn outputs(kind: ActionKind) -> (res: ObjectSchema)
    ensures
        res@ == outputs_of(kind),
{
    match kind {
        ActionKind::GithubListRepositories => block_schema::github_repositories_schema(),
        ActionKind::GithubPreviewRepositories => block_schema::selected_repositories_schema(),
        ActionKind::GithubSelectRepositories => block_schema::github_repositories_schema(),
        ActionKind::SelectArrayItems => block_schema::array_selection_schema(ContextType::Any),
        ActionKind::ForEach => block_schema::for_each_schema("ppduster.control.for-each@1"),
        ActionKind::ForEachGitCloneIfMissing => block_schema::for_each_results_schema(),
        ActionKind::CreateDirectory => block_schema::create_directory_schema(),
        ActionKind::InspectPath => block_schema::path_metadata_schema(),
        ActionKind::CopyPath => block_schema::copy_path_schema(),
        ActionKind::WriteFile => block_schema::write_file_schema(),
        ActionKind::RemovePath => block_schema::remove_path_schema(),
        ActionKind::GitClone => block_schema::repository_schema("ppduster.git.clone@1"),
        ActionKind::GitInspect => block_schema::repository_schema("ppduster.git.inspect@1"),
        ActionKind::GitCloneIfMissing => block_schema::repository_schema("ppduster.git.clone-if-missing@1"),
        ActionKind::GitFetch => block_schema::repository_schema("ppduster.git.fetch@1"),
        ActionKind::GitFastForward => block_schema::repository_schema("ppduster.git.fast-forward@1"),
        ActionKind::BrewInstall => block_schema::package_schema(),
        ActionKind::RunCommand => block_schema::process_exit_schema(),
        ActionKind::RunScript => block_schema::process_exit_schema(),
        ActionKind::ConfigurePackageRegistryFiles => block_schema::configuration_schema(),
        ActionKind::DownloadFile => block_schema::download_schema(),
        ActionKind::ExtractArchive => block_schema::extract_schema(),
        ActionKind::InstallDmg => block_schema::installation_schema("ppduster.installation.dmg@1"),
        ActionKind::InstallPkg => block_schema::installation_schema("ppduster.installation.pkg@1"),
        ActionKind::MacosRequirements => block_schema::system_schema(),
        ActionKind::AppStoreInstall => block_schema::installation_schema("ppduster.installation.app-store@1"),
        ActionKind::BambuStudioRelease => block_schema::installation_schema("ppduster.installation.bambu-studio@1"),
        ActionKind::ActivateLicense => block_schema::license_schema(),
    }
}

/// Kinds that change nothing.
pub open spec fn reads_only(kind: ActionKind) -> bool {
    ||| kind == ActionKind::GithubListRepositories
    ||| kind == ActionKind::GithubPreviewRepositories
    ||| kind == ActionKind::GithubSelectRepositories
    ||| kind == ActionKind::SelectArrayItems
    ||| kind == ActionKind::ForEach
    ||| kind == ActionKind::InspectPath
    ||| kind == ActionKind::GitInspect
    ||| kind == ActionKind::MacosRequirements
}

fn is_reads_only(kind: ActionKind) -> (res: bool)
    ensures
        res == reads_only(kind),
{
    matches!(
        kind,
        ActionKind::GithubListRepositories
        | ActionKind::GithubPreviewRepositories
        | ActionKind::GithubSelectRepositories
        | ActionKind::SelectArrayItems
        | ActionKind::ForEach
        | ActionKind::InspectPath
        | ActionKind::GitInspect
        | ActionKind::MacosRequirements
    )
}

/// Kinds that may be handed a secret.
pub open spec fn uses_secrets(kind: ActionKind) -> bool {
    ||| kind == ActionKind::RunCommand
    ||| kind == ActionKind::RunScript
    ||| kind == ActionKind::ConfigurePackageRegistryFiles
    ||| kind == ActionKind::ActivateLicense
}

fn is_uses_secrets(kind: ActionKind) -> (res: bool)
    ensures
        res == uses_secrets(kind),
{
    matches!(
        kind,
        ActionKind::RunCommand
        | ActionKind::RunScript
        | ActionKind::ConfigurePackageRegistryFiles
        | ActionKind::ActivateLicense
    )
}

pub open spec fn definition_of(kind: ActionKind) -> DefinitionView {
    DefinitionView {
        kind,
        schema_version: if kind == ActionKind::GithubPreviewRepositories {
            2
        } else {
            1
        },
        title: title_of(kind),
        category: category_of(kind),
        search_terms: search_terms_of(kind),
        input_schema: inputs_of(kind),
        output_schema: outputs_of(kind),
        read_only: reads_only(kind),
        may_use_secrets: uses_secrets(kind),
        policy: policy_of(kind),
        catalog: catalog_of(kind),
    }
}

pub fn block_definition(kind: ActionKind) -> (res: BlockDefinition)
    ensures
        res@ == definition_of(kind),
{
    BlockDefinition {
        kind,
        schema_version: if kind == ActionKind::GithubPreviewRepositories {
            2
        } else {
            1
        },
        title: title(kind),
        category: category(kind),
        search_terms: block_search_terms(kind),
        input_schema: inputs(kind),
        output_schema: outputs(kind),
        read_only: is_reads_only(kind),
        may_use_secrets: is_uses_secrets(kind),
        policy: block_policy_capabilities(kind),
        catalog: block_catalog(kind),
    }
}

pub open spec fn definition_views(list: Seq<BlockDefinition>) -> Seq<DefinitionView> {
    list.map_values(|d: BlockDefinition| d.view())
}

/// The definitions of all kinds, in the order of the kinds.
pub fn block_definitions() -> (res: Vec<BlockDefinition>)
    ensures
        definition_views(res@) == all_kinds().map_values(|kind: ActionKind| definition_of(kind)),
{
    let kinds = ActionKind::all();
    let mut res: Vec<BlockDefinition> = Vec::new();
    let mut i: usize = 0;
    while i < kinds.len()
        invariant
            i <= kinds@.len(),
            res@.len() == i,
            forall|j: int| 0 <= j < i ==> (#[trigger] res@[j])@ == definition_of(kinds@[j]),
        decreases kinds@.len() - i,
    {
        res.push(block_definition(kinds[i]));
        i = i + 1;
    }
    assert(definition_views(res@) =~= all_kinds().map_values(
        |kind: ActionKind| definition_of(kind),
    ));
    res
}

/// The definition for one action: a selection of array items yields items of the
/// type that the action declares.
pub open spec fn action_definition(action: ActionView) -> DefinitionView {
    match action {
        ActionView::SelectArrayItems { item_type, .. } => DefinitionView {
            output_schema: contract::array_selection_schema(item_type),
            ..definition_of(ActionKind::SelectArrayItems)
        },
        _ => definition_of(action.kind()),
    }
}

pub fn definition_for_action(action: &Action) -> (res: BlockDefinition)
    ensures
        res@ == action_definition(action@),
{
    match action {
        Action::SelectArrayItems { item_type, .. } => {
            let mut definition = block_definition(ActionKind::SelectArrayItems);
            definition.output_schema = block_schema::array_selection_schema(item_type.clone());
            definition
        },
        _ => block_definition(action.kind()),
    }
}

// ---------------------------------------------------------------------------
// Prototypes
// ---------------------------------------------------------------------------
fn no_texts() -> (res: Vec<String>)
    ensures
        text_views(res@) == Seq::<Seq<char>>::empty(),
{
    let res: Vec<String> = Vec::new();
    assert(text_views(res@) =~= Seq::empty());
    res
}

fn no_repositories() -> (res: Vec<GithubRepositoryInput>)
    ensures
        github_repository_input_views(res@) == Seq::<GithubRepositoryInputView>::empty(),
{
    let res: Vec<GithubRepositoryInput> = Vec::new();
    assert(github_repository_input_views(res@) =~= Seq::empty());
    res
}

fn no_values() -> (res: Vec<Value>)
    ensures
        value_views(res@) == Seq::<ValueView>::empty(),
{
    let res: Vec<Value> = Vec::new();
    assert(value_views(res@) =~= Seq::empty());
    res
}

fn no_entries() -> (res: TextMap<String>)
    ensures
        text_entries(res.entries@) == Seq::<(Seq<char>, Seq<char>)>::empty(),
{
    let res: TextMap<String> = TextMap::new();
    assert(text_entries(res.entries@) =~= Seq::empty());
    res
}

fn success_only() -> (res: Vec<u32>)
    ensures
        res@ == seq![0u32],
{
    let mut res: Vec<u32> = Vec::new();
    res.push(0);
    assert(res@ =~= seq![0u32]);
    res
}

/// The action that a new block of a kind starts with.
pub open spec fn prototype_of(kind: ActionKind) -> Option<ActionView> {
    match kind {
        ActionKind::GithubListRepositories => Some(ActionView::GithubListRepositories),
        ActionKind::GithubPreviewRepositories => Some(ActionView::GithubPreviewRepositories { selected_repositories: Seq::empty() }),
        ActionKind::GithubSelectRepositories => Some(ActionView::GithubSelectRepositories { github: GithubContextInputView { account: GithubAccountInputView { login: "github-user"@ }, repositories: Seq::empty() }, expected_account_login: "github-user"@, repository_ids: Seq::empty() }),
        ActionKind::SelectArrayItems => Some(ActionView::SelectArrayItems { source: None, item_type: contract::plain_string(), selected_items: Seq::empty() }),
        ActionKind::ForEach => None,
        ActionKind::ForEachGitCloneIfMissing => None,
        ActionKind::CreateDirectory => Some(ActionView::CreateDirectory(CreateDirectoryActionView { path: "$HOME/Developer/project"@ })),
        ActionKind::InspectPath => Some(ActionView::InspectPath(InspectPathActionView { path: "$HOME/Developer/project"@, recursive_size: false, sha256: false, expect: None })),
        ActionKind::CopyPath => Some(ActionView::CopyPath(CopyPathActionView { src: "$HOME/Developer/source"@, dest: "$HOME/Developer/destination"@ })),
        ActionKind::WriteFile => Some(ActionView::WriteFile(WriteFileActionView { path: "$HOME/Developer/project/example.txt"@, content: ""@, on_conflict: WriteConflictPolicy::Fail })),
        ActionKind::RemovePath => Some(ActionView::RemovePath(RemovePathActionView { path: "$HOME/Library/Caches/example"@ })),
        ActionKind::GitClone => Some(ActionView::GitClone { repo: "https://github.com/owner/repository.git"@, dest: "$HOME/Developer/owner/repository"@, branch: Some("main"@) }),
        ActionKind::GitInspect => Some(ActionView::GitInspect { repo: "https://github.com/owner/repository.git"@, dest: "$HOME/Developer/owner/repository"@ }),
        ActionKind::GitCloneIfMissing => Some(ActionView::GitCloneIfMissing { repo: "https://github.com/owner/repository.git"@, dest: "$HOME/Developer/owner/repository"@, branch: Some("main"@) }),
        ActionKind::GitFetch => Some(ActionView::GitFetch { repo: "https://github.com/owner/repository.git"@, dest: "$HOME/Developer/owner/repository"@, branch: "main"@ }),
        ActionKind::GitFastForward => Some(ActionView::GitFastForward { repo: "https://github.com/owner/repository.git"@, dest: "$HOME/Developer/owner/repository"@, branch: "main"@ }),
        ActionKind::BrewInstall => Some(ActionView::BrewInstall { package: "ripgrep"@, cask: false }),
        ActionKind::RunCommand => Some(ActionView::RunCommand { program: "true"@, args: Seq::empty(), cwd: None, env: Seq::empty(), shell: ShellMode::Forbidden }),
        ActionKind::RunScript => Some(ActionView::RunScript { interpreter: ScriptInterpreter::Sh, script: "$HOME/Developer/script.sh"@, args: Seq::empty(), cwd: None, env: Seq::empty(), success_exit_codes: seq![0u32] }),
        ActionKind::ConfigurePackageRegistryFiles => Some(ActionView::ConfigurePackageRegistryFiles { secrets: EncryptedSecretsSpecView { profile: "company"@, username_env: "PPDUSTER_REGISTRY_USERNAME"@, token_env: "PPDUSTER_REGISTRY_TOKEN"@ }, npm: NpmRegistryFileSpecView { scope: "@company"@, registry: "https://registry.example.com/npm/"@ }, nuget: NugetRegistryFileSpecView { public_source_name: "nuget.org"@, public_source: "https://api.nuget.org/v3/index.json"@, source_name: "company"@, source: "https://registry.example.com/nuget/v3/index.json"@, package_patterns: seq!["Company.*"@] } }),
        ActionKind::DownloadFile => Some(ActionView::DownloadFile { url: "https://example.com/archive.zip"@, dest: "$HOME/Downloads/archive.zip"@, checksum: ChecksumView { sha256: "0000000000000000000000000000000000000000000000000000000000000000"@ } }),
        ActionKind::ExtractArchive => Some(ActionView::ExtractArchive { src: "$HOME/Downloads/archive.zip"@, dest: "$HOME/Developer/archive"@, format: ArchiveFormat::Auto, max_unpacked_bytes: 10737418240 }),
        ActionKind::InstallDmg => Some(ActionView::InstallDmg { dmg: "$HOME/Downloads/Application.dmg"@, app_name: Some("Application.app"@), target: None, identity: None }),
        ActionKind::InstallPkg => Some(ActionView::InstallPkg { pkg: "$HOME/Downloads/Installer.pkg"@, target: None }),
        ActionKind::MacosRequirements => Some(ActionView::MacosRequirements { minimum_version: "13.0"@, require_rosetta_on_apple_silicon: false }),
        ActionKind::AppStoreInstall => Some(ActionView::AppStoreInstall(AppStoreInstallActionView { app_id: 1, operation: AppStoreOperation::Install })),
        ActionKind::BambuStudioRelease => Some(ActionView::BambuStudioRelease(BambuStudioReleaseActionView { channel: ReleaseChannel::Release })),
        ActionKind::ActivateLicense => Some(ActionView::ActivateLicense(ActivateLicenseActionView { provider: LicenseProvider::LightBurn, method: LicenseMethod::VendorUi })),
    }
}

/// Construct a schema-valid editable prototype for an executable block.
///
/// The visual graph editor uses this registry entry when a block is added and
/// then edits its inputs through [`BlockDefinition::input_schema`]. Keeping
/// prototypes beside the schema registry prevents UI code from growing a
/// second action-specific constructor table. Legacy linear control actions are
/// deliberately excluded: graph v3 represents control flow with `GraphNode`
/// variants instead of executable `Action` values.
pub fn default_action(kind: ActionKind) -> (res: Result<Action, &'static str>)
    ensures
        match res {
            Ok(action) => prototype_of(kind) == Some(action@),
            Err(message) => prototype_of(kind) is None && message@
                == "legacy foreach actions are not graph-v3 action blocks"@,
        },
{
    Ok(
        match kind {
            ActionKind::GithubListRepositories => Action::GithubListRepositories,
            ActionKind::GithubPreviewRepositories => Action::GithubPreviewRepositories {
                selected_repositories: no_repositories(),
            },
            ActionKind::GithubSelectRepositories => Action::GithubSelectRepositories {
                github: GithubContextInput { account: GithubAccountInput { login: owned("github-user") }, repositories: no_repositories() },
                expected_account_login: owned("github-user"),
                repository_ids: no_texts(),
            },
            ActionKind::SelectArrayItems => Action::SelectArrayItems {
                source: None,
                item_type: ContextType::plain_string(),
                selected_items: no_values(),
            },
            ActionKind::CreateDirectory => Action::CreateDirectory(CreateDirectoryAction { path: owned("$HOME/Developer/project") }),
            ActionKind::InspectPath => Action::InspectPath(InspectPathAction { path: owned("$HOME/Developer/project"), recursive_size: false, sha256: false, expect: None }),
            ActionKind::CopyPath => Action::CopyPath(CopyPathAction { src: owned("$HOME/Developer/source"), dest: owned("$HOME/Developer/destination") }),
            ActionKind::WriteFile => Action::WriteFile(WriteFileAction { path: owned("$HOME/Developer/project/example.txt"), content: owned(""), on_conflict: WriteConflictPolicy::Fail }),
            ActionKind::RemovePath => Action::RemovePath(RemovePathAction { path: owned("$HOME/Library/Caches/example") }),
            ActionKind::GitClone => Action::GitClone {
                repo: owned("https://github.com/owner/repository.git"),
                dest: owned("$HOME/Developer/owner/repository"),
                branch: Some(owned("main")),
            },
            ActionKind::GitInspect => Action::GitInspect {
                repo: owned("https://github.com/owner/repository.git"),
                dest: owned("$HOME/Developer/owner/repository"),
            },
            ActionKind::GitCloneIfMissing => Action::GitCloneIfMissing {
                repo: owned("https://github.com/owner/repository.git"),
                dest: owned("$HOME/Developer/owner/repository"),
                branch: Some(owned("main")),
            },
            ActionKind::GitFetch => Action::GitFetch {
                repo: owned("https://github.com/owner/repository.git"),
                dest: owned("$HOME/Developer/owner/repository"),
                branch: owned("main"),
            },
            ActionKind::GitFastForward => Action::GitFastForward {
                repo: owned("https://github.com/owner/repository.git"),
                dest: owned("$HOME/Developer/owner/repository"),
                branch: owned("main"),
            },
            ActionKind::BrewInstall => Action::BrewInstall {
                package: owned("ripgrep"),
                cask: false,
            },
            ActionKind::RunCommand => Action::RunCommand {
                program: owned("true"),
                args: no_texts(),
                cwd: None,
                env: no_entries(),
                shell: ShellMode::Forbidden,
            },
            ActionKind::RunScript => Action::RunScript {
                interpreter: ScriptInterpreter::Sh,
                script: owned("$HOME/Developer/script.sh"),
                args: no_texts(),
                cwd: None,
                env: no_entries(),
                success_exit_codes: success_only(),
            },
            ActionKind::ConfigurePackageRegistryFiles => Action::ConfigurePackageRegistryFiles {
                secrets: EncryptedSecretsSpec { profile: owned("company"), username_env: owned("PPDUSTER_REGISTRY_USERNAME"), token_env: owned("PPDUSTER_REGISTRY_TOKEN") },
                npm: NpmRegistryFileSpec { scope: owned("@company"), registry: owned("https://registry.example.com/npm/") },
                nuget: NugetRegistryFileSpec { public_source_name: owned("nuget.org"), public_source: owned("https://api.nuget.org/v3/index.json"), source_name: owned("company"), source: owned("https://registry.example.com/nuget/v3/index.json"), package_patterns: Terms::of("Company.*").list },
            },
            ActionKind::DownloadFile => Action::DownloadFile {
                url: owned("https://example.com/archive.zip"),
                dest: owned("$HOME/Downloads/archive.zip"),
                checksum: Checksum { sha256: owned("0000000000000000000000000000000000000000000000000000000000000000") },
            },
            ActionKind::ExtractArchive => Action::ExtractArchive {
                src: owned("$HOME/Downloads/archive.zip"),
                dest: owned("$HOME/Developer/archive"),
                format: ArchiveFormat::Auto,
                max_unpacked_bytes: 10737418240,
            },
            ActionKind::InstallDmg => Action::InstallDmg {
                dmg: owned("$HOME/Downloads/Application.dmg"),
                app_name: Some(owned("Application.app")),
                target: None,
                identity: None,
            },
            ActionKind::InstallPkg => Action::InstallPkg {
                pkg: owned("$HOME/Downloads/Installer.pkg"),
                target: None,
            },
            ActionKind::MacosRequirements => Action::MacosRequirements {
                minimum_version: owned("13.0"),
                require_rosetta_on_apple_silicon: false,
            },
            ActionKind::AppStoreInstall => Action::AppStoreInstall(AppStoreInstallAction { app_id: 1, operation: AppStoreOperation::Install }),
            ActionKind::BambuStudioRelease => Action::BambuStudioRelease(BambuStudioReleaseAction { channel: ReleaseChannel::Release }),
            ActionKind::ActivateLicense => Action::ActivateLicense(ActivateLicenseAction { provider: LicenseProvider::LightBurn, method: LicenseMethod::VendorUi }),
            ActionKind::ForEach | ActionKind::ForEachGitCloneIfMissing => {
                return Err("legacy foreach actions are not graph-v3 action blocks");
            },
        },
    )
}

/// The step that a new block of a kind starts with.
pub open spec fn first_step(kind: ActionKind, id: Seq<char>, action: ActionView) -> StepView {
    StepView {
        id,
        name: title_of(kind),
        bindings: Seq::empty(),
        auth: AuthPolicy::NoAuth,
        check: None,
        dangerous: kind == ActionKind::RunScript,
        allow_elevation: ElevationPolicy::Forbidden,
        when: None,
        require: None,
        action,
    }
}

/// Construct a complete action step for a newly-created graph node.
///
/// Common policy defaults live here as part of the block registry contract,
/// rather than being duplicated by every editor or importer.
pub fn default_step(kind: ActionKind, id: &str) -> (res: Result<Step, &'static str>)
    ensures
        match res {
            Ok(step) => prototype_of(kind) is Some && step@ == first_step(
                kind,
                id@,
                prototype_of(kind)->0,
            ),
            Err(message) => prototype_of(kind) is None && message@
                == "legacy foreach actions are not graph-v3 action blocks"@,
        },
{
    let action = match default_action(kind) {
        Err(message) => {
            return Err(message);
        },
        Ok(action) => action,
    };
    let bindings: TextMap<Binding> = TextMap::new();
    assert(binding_views(bindings.entries@) =~= Seq::empty());
    Ok(
        Step {
            id: owned(id),
            name: title(kind),
            bindings,
            auth: AuthPolicy::NoAuth,
            check: None,
            dangerous: matches!(kind, ActionKind::RunScript),
            allow_elevation: ElevationPolicy::Forbidden,
            when: None,
            require: None,
            action,
        },
    )
}

// ---------------------------------------------------------------------------
// Laws
// ---------------------------------------------------------------------------
/// Exactly the kinds that a graph can hold as actions have a prototype, and the
/// prototype is of that kind.
pub proof fn law_prototypes(kind: ActionKind)
    ensures
        prototype_of(kind) is Some <==> kind.graph_action(),
        prototype_of(kind) matches Some(action) ==> action.kind() == kind,
{
}

/// The step that a new block starts with satisfies the policy of its block.
pub proof fn law_default_step_is_accepted(kind: ActionKind, id: Seq<char>)
    requires
        kind.graph_action(),
    ensures
        first_step(kind, id, prototype_of(kind)->0).policy_accepted(),
{
}

/// The registry publishes for every kind the policy and the catalog of the kind,
/// and the definition for an action agrees with that of its kind but for the
/// outputs.
pub proof fn law_definitions_agree(action: ActionView)
    ensures
        ({
            let d = action_definition(action);
            &&& d.kind == action.kind()
            &&& d.policy == policy_of(action.kind())
            &&& d.catalog == catalog_of(action.kind())
            &&& d.input_schema == inputs_of(action.kind())
            &&& d.search_terms[0] == action.kind().name()
        }),
{
}

/// Nothing in a list of fields is declared more than public.
pub open spec fn open_fields(fields: Seq<(Seq<char>, FieldView)>) -> bool {
    forall|i: int| 0 <= i < fields.len() ==> open_field((#[trigger] fields[i]).1)
}

pub open spec fn open_field(field: FieldView) -> bool {
    field.sensitivity == Sensitivity::Public && field.value_type.sensitivity()
        == Sensitivity::Public
}

proof fn lemma_open_fields(fields: Seq<(Seq<char>, FieldView)>)
    requires
        open_fields(fields),
    ensures
        fields_sensitivity(fields) == Sensitivity::Public,
    decreases fields.len(),
{
    if fields.len() > 0 {
        let init = fields.drop_last();
        assert forall|i: int| 0 <= i < init.len() implies open_field((#[trigger] init[i]).1) by {
            assert(init[i] == fields[i]);
        }
        lemma_open_fields(init);
        assert(open_field(fields[fields.len() - 1].1));
    }
}

proof fn lemma_stored_open(
    fields: Seq<(Seq<char>, FieldView)>,
    name: Seq<char>,
    field: FieldView,
)
    requires
        open_fields(fields),
        open_field(field),
    ensures
        open_fields(text_map::stored(fields, name, field)),
    decreases fields.len(),
{
    let out = text_map::stored(fields, name, field);
    if fields.len() > 0 {
        let rest = fields.skip(1);
        assert forall|i: int| 0 <= i < rest.len() implies open_field((#[trigger] rest[i]).1) by {
            assert(rest[i] == fields[i + 1]);
        }
        assert(open_field(fields[0].1));
        lemma_stored_open(rest, name, field);
        let tail = text_map::stored(rest, name, field);
        assert forall|i: int| 0 <= i < out.len() implies open_field((#[trigger] out[i]).1) by {
            if i > 0 {
                assert(out[i] == rest[i - 1] || out[i] == fields[i - 1] || out[i] == tail[i - 1]);
            }
        }
    }
}

/// A schema that is closed and declares nothing more than public.
pub open spec fn open_schema(schema: SchemaView) -> bool {
    open_fields(schema.fields) && schema.additional_fields is Forbidden
}

broadcast proof fn lemma_new_open(id: Seq<char>)
    ensures
        open_schema(#[trigger] SchemaView::new(id)),
{
}

broadcast proof fn lemma_with_field_open(schema: SchemaView, name: Seq<char>, field: FieldView)
    requires
        open_schema(schema),
        open_field(field),
    ensures
        open_schema(#[trigger] schema.with_field(name, field)),
{
    lemma_stored_open(schema.fields, name, field);
}

broadcast proof fn lemma_object_open(schema: SchemaView)
    requires
        open_schema(schema),
    ensures
        (#[trigger] contract::object(schema)).sensitivity() == Sensitivity::Public,
{
    lemma_open_fields(schema.fields);
    reveal_with_fuel(TypeView::sensitivity, 2);
    reveal_with_fuel(SchemaView::sensitivity, 2);
    assert(schema.sensitivity() == Sensitivity::Public);
}

broadcast proof fn lemma_array_open(items: TypeView)
    requires
        items.sensitivity() == Sensitivity::Public,
    ensures
        (#[trigger] contract::array(items)).sensitivity() == Sensitivity::Public,
{
    reveal_with_fuel(TypeView::sensitivity, 2);
}

broadcast proof fn lemma_scalar_open(format: SemanticFormat)
    ensures
        (#[trigger] contract::string(format)).sensitivity() == Sensitivity::Public,
{
}

proof fn lemma_github_repository_type_open()
    ensures
        contract::github_repository_type().sensitivity() == Sensitivity::Public,
{
    broadcast use {lemma_new_open, lemma_with_field_open, lemma_object_open, lemma_array_open, lemma_scalar_open};

}

proof fn lemma_github_context_type_open()
    ensures
        contract::github_context_type().sensitivity() == Sensitivity::Public,
{
    broadcast use {lemma_new_open, lemma_with_field_open, lemma_object_open, lemma_array_open, lemma_scalar_open};

    lemma_github_repository_type_open();
}

proof fn lemma_public_repository_type_open()
    ensures
        contract::public_repository_type().sensitivity() == Sensitivity::Public,
{
    broadcast use {lemma_new_open, lemma_with_field_open, lemma_object_open, lemma_array_open, lemma_scalar_open};

}

proof fn lemma_github_repositories_schema_open()
    ensures
        open_schema(contract::github_repositories_schema()),
{
    broadcast use {lemma_new_open, lemma_with_field_open, lemma_object_open, lemma_array_open, lemma_scalar_open};

    lemma_github_context_type_open();
}

proof fn lemma_selected_repositories_schema_open()
    ensures
        open_schema(contract::selected_repositories_schema()),
{
    broadcast use {lemma_new_open, lemma_with_field_open, lemma_object_open, lemma_array_open, lemma_scalar_open};

    lemma_public_repository_type_open();
}

proof fn lemma_array_selection_schema_open()
    ensures
        open_schema(contract::array_selection_schema(TypeView::Any)),
{
    broadcast use {lemma_new_open, lemma_with_field_open, lemma_object_open, lemma_array_open, lemma_scalar_open};

}

proof fn lemma_for_each_schema_open(id: Seq<char>)
    ensures
        open_schema(contract::for_each_schema(id)),
{
    broadcast use {lemma_new_open, lemma_with_field_open, lemma_object_open, lemma_array_open, lemma_scalar_open};

}

proof fn lemma_for_each_results_schema_open()
    ensures
        open_schema(contract::for_each_results_schema()),
{
    broadcast use {lemma_new_open, lemma_with_field_open, lemma_object_open, lemma_array_open, lemma_scalar_open};

}

proof fn lemma_create_directory_schema_open()
    ensures
        open_schema(contract::create_directory_schema()),
{
    broadcast use {lemma_new_open, lemma_with_field_open, lemma_object_open, lemma_array_open, lemma_scalar_open};

}

proof fn lemma_path_metadata_schema_open()
    ensures
        open_schema(contract::path_metadata_schema()),
{
    broadcast use {lemma_new_open, lemma_with_field_open, lemma_object_open, lemma_array_open, lemma_scalar_open};

}

proof fn lemma_copy_path_schema_open()
    ensures
        open_schema(contract::copy_path_schema()),
{
    broadcast use {lemma_new_open, lemma_with_field_open, lemma_object_open, lemma_array_open, lemma_scalar_open};

}

proof fn lemma_write_file_schema_open()
    ensures
        open_schema(contract::write_file_schema()),
{
    broadcast use {lemma_new_open, lemma_with_field_open, lemma_object_open, lemma_array_open, lemma_scalar_open};

}

proof fn lemma_remove_path_schema_open()
    ensures
        open_schema(contract::remove_path_schema()),
{
    broadcast use {lemma_new_open, lemma_with_field_open, lemma_object_open, lemma_array_open, lemma_scalar_open};

}

proof fn lemma_repository_schema_open(id: Seq<char>)
    ensures
        open_schema(contract::repository_schema(id)),
{
    broadcast use {lemma_new_open, lemma_with_field_open, lemma_object_open, lemma_array_open, lemma_scalar_open};

}

proof fn lemma_package_schema_open()
    ensures
        open_schema(contract::package_schema()),
{
    broadcast use {lemma_new_open, lemma_with_field_open, lemma_object_open, lemma_array_open, lemma_scalar_open};

}

proof fn lemma_process_exit_schema_open()
    ensures
        open_schema(contract::process_exit_schema()),
{
    broadcast use {lemma_new_open, lemma_with_field_open, lemma_object_open, lemma_array_open, lemma_scalar_open};

}

proof fn lemma_configuration_schema_open()
    ensures
        open_schema(contract::configuration_schema()),
{
    broadcast use {lemma_new_open, lemma_with_field_open, lemma_object_open, lemma_array_open, lemma_scalar_open};

}

proof fn lemma_download_schema_open()
    ensures
        open_schema(contract::download_schema()),
{
    broadcast use {lemma_new_open, lemma_with_field_open, lemma_object_open, lemma_array_open, lemma_scalar_open};

}

proof fn lemma_extract_schema_open()
    ensures
        open_schema(contract::extract_schema()),
{
    broadcast use {lemma_new_open, lemma_with_field_open, lemma_object_open, lemma_array_open, lemma_scalar_open};

}

proof fn lemma_installation_schema_open(id: Seq<char>)
    ensures
        open_schema(contract::installation_schema(id)),
{
    broadcast use {lemma_new_open, lemma_with_field_open, lemma_object_open, lemma_array_open, lemma_scalar_open};

}

proof fn lemma_system_schema_open()
    ensures
        open_schema(contract::system_schema()),
{
    broadcast use {lemma_new_open, lemma_with_field_open, lemma_object_open, lemma_array_open, lemma_scalar_open};

}

proof fn lemma_license_schema_open()
    ensures
        open_schema(contract::license_schema()),
{
    broadcast use {lemma_new_open, lemma_with_field_open, lemma_object_open, lemma_array_open, lemma_scalar_open};

}


/// No block publishes a secret, nor anything else that is not public, at any
/// depth of its outputs.
pub proof fn law_outputs_are_public(kind: ActionKind)
    ensures
        outputs_of(kind).sensitivity() == Sensitivity::Public,
        forall|i: int|
            0 <= i < outputs_of(kind).fields.len() ==> (
            #[trigger] outputs_of(kind).fields[i]).1.sensitivity == Sensitivity::Public,
{
    match kind {
        ActionKind::GithubListRepositories => lemma_github_repositories_schema_open(),
        ActionKind::GithubPreviewRepositories => lemma_selected_repositories_schema_open(),
        ActionKind::GithubSelectRepositories => lemma_github_repositories_schema_open(),
        ActionKind::SelectArrayItems => lemma_array_selection_schema_open(),
        ActionKind::ForEach => lemma_for_each_schema_open("ppduster.control.for-each@1"@),
        ActionKind::ForEachGitCloneIfMissing => lemma_for_each_results_schema_open(),
        ActionKind::CreateDirectory => lemma_create_directory_schema_open(),
        ActionKind::InspectPath => lemma_path_metadata_schema_open(),
        ActionKind::CopyPath => lemma_copy_path_schema_open(),
        ActionKind::WriteFile => lemma_write_file_schema_open(),
        ActionKind::RemovePath => lemma_remove_path_schema_open(),
        ActionKind::GitClone => lemma_repository_schema_open("ppduster.git.clone@1"@),
        ActionKind::GitInspect => lemma_repository_schema_open("ppduster.git.inspect@1"@),
        ActionKind::GitCloneIfMissing => lemma_repository_schema_open("ppduster.git.clone-if-missing@1"@),
        ActionKind::GitFetch => lemma_repository_schema_open("ppduster.git.fetch@1"@),
        ActionKind::GitFastForward => lemma_repository_schema_open("ppduster.git.fast-forward@1"@),
        ActionKind::BrewInstall => lemma_package_schema_open(),
        ActionKind::RunCommand => lemma_process_exit_schema_open(),
        ActionKind::RunScript => lemma_process_exit_schema_open(),
        ActionKind::ConfigurePackageRegistryFiles => lemma_configuration_schema_open(),
        ActionKind::DownloadFile => lemma_download_schema_open(),
        ActionKind::ExtractArchive => lemma_extract_schema_open(),
        ActionKind::InstallDmg => lemma_installation_schema_open("ppduster.installation.dmg@1"@),
        ActionKind::InstallPkg => lemma_installation_schema_open("ppduster.installation.pkg@1"@),
        ActionKind::MacosRequirements => lemma_system_schema_open(),
        ActionKind::AppStoreInstall => lemma_installation_schema_open("ppduster.installation.app-store@1"@),
        ActionKind::BambuStudioRelease => lemma_installation_schema_open("ppduster.installation.bambu-studio@1"@),
        ActionKind::ActivateLicense => lemma_license_schema_open(),
    }
    assert(open_schema(outputs_of(kind)));
    lemma_open_fields(outputs_of(kind).fields);
    assert forall|i: int| 0 <= i < outputs_of(kind).fields.len() implies (
    #[trigger] outputs_of(kind).fields[i]).1.sensitivity == Sensitivity::Public by {
        assert(open_field(outputs_of(kind).fields[i].1));
    }
}

} // verus!

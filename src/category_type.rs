use vstd::prelude::*;

verus! {

/// The closed set of kinds of reclaimable data.
/// Their order is the order of the categories in a scan result.
#[derive(Debug, Clone, Copy, PartialEq, Eq, Structural, Hash)]
pub enum CategoryType {
    LogFiles,
    TemporaryFiles,
    DockerImages,
    DockerVolumes,
    DevelopmentPackages,
}

/// The kinds in registry order: the position of a kind is the index of its
/// category in a scan result.
pub open spec fn registry() -> Seq<CategoryType> {
    seq![
        CategoryType::LogFiles,
        CategoryType::TemporaryFiles,
        CategoryType::DockerImages,
        CategoryType::DockerVolumes,
        CategoryType::DevelopmentPackages,
    ]
}

pub open spec fn display_name_of(t: CategoryType) -> Seq<char> {
    match t {
        CategoryType::LogFiles => "📄 Arquivos de Log"@,
        CategoryType::TemporaryFiles => "🗂️ Arquivos Temporários"@,
        CategoryType::DockerImages => "🐳 Imagens Docker"@,
        CategoryType::DockerVolumes => "💾 Volumes Docker"@,
        CategoryType::DevelopmentPackages => "📦 Pacotes de Desenvolvimento"@,
    }
}

pub open spec fn identifier_of(t: CategoryType) -> Seq<char> {
    match t {
        CategoryType::LogFiles => "log_files"@,
        CategoryType::TemporaryFiles => "temp_files"@,
        CategoryType::DockerImages => "docker_images"@,
        CategoryType::DockerVolumes => "docker_volumes"@,
        CategoryType::DevelopmentPackages => "dev_packages"@,
    }
}

impl CategoryType {
    /// The label shown to people, which also names the category in a scan result.
    pub fn display_name(&self) -> (r: &'static str)
        ensures
            r@ == display_name_of(*self),
    {
        match self {
            CategoryType::LogFiles => "📄 Arquivos de Log",
            CategoryType::TemporaryFiles => "🗂️ Arquivos Temporários",
            CategoryType::DockerImages => "🐳 Imagens Docker",
            CategoryType::DockerVolumes => "💾 Volumes Docker",
            CategoryType::DevelopmentPackages => "📦 Pacotes de Desenvolvimento",
        }
    }

    /// The stable machine identifier of the kind.
    pub fn identifier(&self) -> (r: &'static str)
        ensures
            r@ == identifier_of(*self),
    {
        match self {
            CategoryType::LogFiles => "log_files",
            CategoryType::TemporaryFiles => "temp_files",
            CategoryType::DockerImages => "docker_images",
            CategoryType::DockerVolumes => "docker_volumes",
            CategoryType::DevelopmentPackages => "dev_packages",
        }
    }

    /// Every kind, in registry order.
    pub fn all() -> (r: Vec<CategoryType>)
        ensures
            r@ == registry(),
    {
        let r = vec![
            CategoryType::LogFiles,
            CategoryType::TemporaryFiles,
            CategoryType::DockerImages,
            CategoryType::DockerVolumes,
            CategoryType::DevelopmentPackages,
        ];
        assert(r@ =~= registry());
        r
    }
}

} // verus!

//! Where ANSYS is and where its files go.

use vstd::prelude::*;

use crate::number::{decimal_text, law_decimal_round_trip, number_in, parse_usize};
use crate::text::{inner_text, is_blank, trimmed};

verus! {

/// The ANSYS executable where the environment names none.
pub const DEFAULT_ANSYS_EXE: &'static str =
    "F:\\ansys\\19.0zhuchengxu\\ANSYS Inc\\v190\\ansys\\bin\\winx64\\ANSYS190.exe";

/// The directory of the source materials, below the workspace.
pub const DEFAULT_INPUT_DIR: &'static str = "input";

/// The directory of the results, below the workspace.
pub const DEFAULT_OUTPUT_DIR: &'static str = "output";

/// The directory of the first stage's runs, below that of the results.
pub const APDL_DIR: &'static str = "apdl";

/// The directory of the export stage's workspaces, below that of the results.
pub const APDL_K_DIR: &'static str = "apdl-k";

/// The directory of the exported decks, below that of the results.
pub const K_DIR: &'static str = "k";

/// The directory of the export runs that the user starts, below that of the results.
pub const MANUAL_DIR: &'static str = "manual";

/// The number of repair attempts where the environment gives none.
pub const DEFAULT_MAX_REPAIR_ATTEMPTS: usize = 6;

/// The ANSYS product of the export stage where the environment names none.
pub const DEFAULT_STAGE2_PRODUCT: &'static str = "dyna";

/// The configuration of the workflow, with paths as they are shown.
#[derive(Debug)]
pub struct AnsysConfig {
    pub executable: String,
    pub input_dir: String,
    pub output_dir: String,
    pub apdl_runs_dir: String,
    pub apdl_k_runs_dir: String,
    pub k_dir: String,
    pub max_repair_attempts: usize,
    pub stage2_product: String,
}

/// What the environment holds of the configuration. A path is set where its variable is there
/// and not empty.
#[derive(Debug)]
pub struct Environment {
    /// `OPENANSYS_ANSYS_EXE` is set.
    pub executable_set: bool,
    /// `ANSYS_EXE_PATH` is set.
    pub fallback_executable_set: bool,
    /// `OPENANSYS_INPUT_DIR` is set.
    pub input_dir_set: bool,
    /// `OPENANSYS_OUTPUT_DIR` is set.
    pub output_dir_set: bool,
    /// The value of `OPENANSYS_STAGE2_PRODUCT`.
    pub stage2_product: Option<String>,
    /// The value of `OPENANSYS_MAX_REPAIR_ATTEMPTS`.
    pub max_repair_attempts: Option<String>,
}

/// Where the path of the executable comes from.
#[derive(Debug, Clone, Copy, PartialEq, Eq, Structural)]
pub enum ExecutableSource {
    /// `OPENANSYS_ANSYS_EXE`.
    Primary,
    /// `ANSYS_EXE_PATH`.
    Fallback,
    /// [`DEFAULT_ANSYS_EXE`].
    Default,
}

/// Where the path of a directory comes from.
#[derive(Debug, Clone, Copy, PartialEq, Eq, Structural)]
pub enum DirSource {
    /// The environment.
    Environment,
    /// The default name below the workspace.
    Workspace,
}

/// How the configuration is put together.
#[derive(Debug)]
pub struct ConfigPlan {
    pub executable: ExecutableSource,
    pub input_dir: DirSource,
    pub output_dir: DirSource,
    pub stage2_product: String,
    pub max_repair_attempts: usize,
}

/// The product that is named, unless the name is blank.
pub open spec fn product_of(value: Option<Seq<char>>) -> Seq<char> {
    match value {
        Some(product) if trimmed(product).len() > 0 => product,
        _ => DEFAULT_STAGE2_PRODUCT@,
    }
}

/// The number of attempts that is given, where it is a positive number that a `usize` can hold.
pub open spec fn attempts_of(value: Option<Seq<char>>) -> nat {
    match value {
        Some(text) => match number_in(text) {
            Some(n) if 0 < n <= usize::MAX => n,
            _ => DEFAULT_MAX_REPAIR_ATTEMPTS as nat,
        },
        None => DEFAULT_MAX_REPAIR_ATTEMPTS as nat,
    }
}

/// Decides where each part of the configuration comes from.
pub fn load_config(env: &Environment) -> (r: ConfigPlan)
    ensures
        r.executable == if env.executable_set {
            ExecutableSource::Primary
        } else if env.fallback_executable_set {
            ExecutableSource::Fallback
        } else {
            ExecutableSource::Default
        },
        r.input_dir == if env.input_dir_set {
            DirSource::Environment
        } else {
            DirSource::Workspace
        },
        r.output_dir == if env.output_dir_set {
            DirSource::Environment
        } else {
            DirSource::Workspace
        },
        r.stage2_product@ == product_of(inner_text(env.stage2_product)),
        r.max_repair_attempts == attempts_of(inner_text(env.max_repair_attempts)),
        r.max_repair_attempts > 0,
{
    let stage2_product = match &env.stage2_product {
        Some(product) if !is_blank(product) => product.clone(),
        _ => DEFAULT_STAGE2_PRODUCT.to_owned(),
    };
    let max_repair_attempts: usize = match &env.max_repair_attempts {
        Some(text) => match parse_usize(text) {
            Some(n) if n > 0 => n,
            _ => DEFAULT_MAX_REPAIR_ATTEMPTS,
        },
        None => DEFAULT_MAX_REPAIR_ATTEMPTS,
    };
    ConfigPlan {
        executable: if env.executable_set {
            ExecutableSource::Primary
        } else if env.fallback_executable_set {
            ExecutableSource::Fallback
        } else {
            ExecutableSource::Default
        },
        input_dir: if env.input_dir_set {
            DirSource::Environment
        } else {
            DirSource::Workspace
        },
        output_dir: if env.output_dir_set {
            DirSource::Environment
        } else {
            DirSource::Workspace
        },
        stage2_product,
        max_repair_attempts,
    }
}

/// What the environment gives is used as it stands: a product unless it is blank, and a number of
/// attempts unless it is zero or none; else the defaults hold.
pub proof fn law_environment_is_used(product: Seq<char>, n: nat)
    ensures
        trimmed(product).len() > 0 ==> product_of(Some(product)) == product,
        trimmed(product).len() == 0 ==> product_of(Some(product)) == "dyna"@,
        product_of(None) == "dyna"@,
        0 < n <= usize::MAX ==> attempts_of(Some(decimal_text(n))) == n,
        attempts_of(Some(decimal_text(0))) == 6,
        number_in(product) is None ==> attempts_of(Some(product)) == 6,
        attempts_of(None) == 6,
{
    law_decimal_round_trip(n);
    law_decimal_round_trip(0);
}

} // verus!

use vstd::prelude::*;

verus! {

/// What a worker is given on its command line. Standalone mode takes an input
/// and an output path; coordinated mode takes a shared-region path, a width
/// and a height.
pub struct ProcessConfig {
    pub input: Option<String>,
    pub output: Option<String>,
    pub shared_memory: Option<String>,
    pub width: Option<u32>,
    pub height: Option<u32>,
}

/// The one mode a valid configuration selects.
pub enum Mode {
    Standalone { input: String, output: String },
    Coordinated { shared_memory: String, width: u32, height: u32 },
}

/// Why a configuration selects no mode.
#[derive(Clone, Copy, Debug, PartialEq, Eq, Structural)]
pub enum ConfigError {
    /// Some but not all of shared region, width and height are given.
    IncompleteCoordinated,
    /// Fields of both modes are given.
    BothModes,
    /// No field of either mode is given.
    NoMode,
    /// An output path without an input path.
    MissingInput,
    /// An input path without an output path.
    MissingOutput,
}

impl ConfigError {
    /// A sentence that says what is wrong.
    pub fn message(&self) -> String {
        match self {
            ConfigError::IncompleteCoordinated => String::from_str(
                "shared memory, width and height must all be provided together for coordinated mode",
            ),
            ConfigError::BothModes => String::from_str(
                "give either input and output files or a shared memory region, not both",
            ),
            ConfigError::NoMode => String::from_str(
                "give either input and output files or a shared memory region with width and height",
            ),
            ConfigError::MissingInput => String::from_str(
                "input file is required in standalone mode",
            ),
            ConfigError::MissingOutput => String::from_str(
                "output file is required in standalone mode",
            ),
        }
    }
}

impl ProcessConfig {
    pub open spec fn coordinated_any(&self) -> bool {
        self.shared_memory is Some || self.width is Some || self.height is Some
    }

    pub open spec fn coordinated_all(&self) -> bool {
        self.shared_memory is Some && self.width is Some && self.height is Some
    }

    pub open spec fn standalone_any(&self) -> bool {
        self.input is Some || self.output is Some
    }

    /// The mode this configuration selects, or why it selects none.
    pub open spec fn mode_spec(&self) -> Result<Mode, ConfigError> {
        if self.coordinated_any() && !self.coordinated_all() {
            Err(ConfigError::IncompleteCoordinated)
        } else if self.coordinated_all() && self.standalone_any() {
            Err(ConfigError::BothModes)
        } else if self.coordinated_all() {
            Ok(
                Mode::Coordinated {
                    shared_memory: self.shared_memory->Some_0,
                    width: self.width->Some_0,
                    height: self.height->Some_0,
                },
            )
        } else if !self.standalone_any() {
            Err(ConfigError::NoMode)
        } else if self.input is None {
            Err(ConfigError::MissingInput)
        } else if self.output is None {
            Err(ConfigError::MissingOutput)
        } else {
            Ok(Mode::Standalone { input: self.input->Some_0, output: self.output->Some_0 })
        }
    }

    /// Selects the one mode whose fields are all present while no field of the
    /// other mode is; anything else is refused.
    pub fn select_mode(self) -> (r: Result<Mode, ConfigError>)
        ensures
            r == self.mode_spec(),
    {
        let coordinated_any = self.shared_memory.is_some() || self.width.is_some()
            || self.height.is_some();
        let standalone_any = self.input.is_some() || self.output.is_some();
        match (self.shared_memory, self.width, self.height) {
            (Some(shared_memory), Some(width), Some(height)) => {
                if standalone_any {
                    Err(ConfigError::BothModes)
                } else {
                    Ok(Mode::Coordinated { shared_memory, width, height })
                }
            },
            _ => {
                if coordinated_any {
                    Err(ConfigError::IncompleteCoordinated)
                } else {
                    match (self.input, self.output) {
                        (Some(input), Some(output)) => Ok(Mode::Standalone { input, output }),
                        (None, None) => Err(ConfigError::NoMode),
                        (None, Some(_)) => Err(ConfigError::MissingInput),
                        (Some(_), None) => Err(ConfigError::MissingOutput),
                    }
                }
            },
        }
    }
}

/// A width without a height, or a height without a width, is refused as an
/// incomplete coordinated configuration; a configuration with no field at all
/// is refused as naming no mode. Either way no mode, and so no path to open,
/// comes out.
pub proof fn lemma_config_rejections(c: ProcessConfig)
    ensures
        (c.width is Some) != (c.height is Some) ==> c.mode_spec() == Err::<Mode, ConfigError>(
            ConfigError::IncompleteCoordinated,
        ),
        !c.coordinated_any() && !c.standalone_any() ==> c.mode_spec() == Err::<Mode, ConfigError>(
            ConfigError::NoMode,
        ),
{
}

} // verus!

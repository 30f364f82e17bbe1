use vstd::prelude::*;

verus! {

/// The logs that operations are written to.
#[derive(Clone, Copy, PartialEq, Eq, Structural, Hash)]
pub enum LogCategory {
    Operation,
    Game,
    Screenshot,
    Data,
    System,
}

impl LogCategory {
    pub open spec fn file_name_spec(self) -> Seq<char> {
        match self {
            LogCategory::Operation => "operation.log"@,
            LogCategory::Game => "game.log"@,
            LogCategory::Screenshot => "screenshot.log"@,
            LogCategory::Data => "data.log"@,
            LogCategory::System => "system.log"@,
        }
    }

    /// The file of the log, in the log directory.
    pub fn file_name(&self) -> (name: &'static str)
        ensures
            name@ == self.file_name_spec(),
    {
        match self {
            LogCategory::Operation => "operation.log",
            LogCategory::Game => "game.log",
            LogCategory::Screenshot => "screenshot.log",
            LogCategory::Data => "data.log",
            LogCategory::System => "system.log",
        }
    }
}

} // verus!

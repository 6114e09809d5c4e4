//! The commands an operator can type, each with its outcome.
use vstd::prelude::*;
use crate::csctrl::{ActionView, Csctrl, CsctrlAction, CsctrlError, ErrorView};
use crate::text::{append_str, split_arguments, words};
use crate::types::{name_position, CsctrlDataParent, CsctrlServerSetup};

verus! {

/// Forwards `rcon <args>` to the target server's worker.
pub open spec fn rcon_outcome(data: CsctrlDataParent, target: Seq<char>, args: Seq<char>) -> Result<ActionView, ErrorView> {
    if data.index_of(target) is Some {
        Ok(ActionView::SendToWorker { address: target, message: "rcon "@ + args })
    } else {
        Err(ErrorView::UnknownServer { address: target })
    }
}

/// Adds a server from its name, address and password, then persists.
pub open spec fn generate_server_outcome(args: Seq<char>) -> Result<ActionView, ErrorView> {
    if words(args).len() == 3 {
        Ok(ActionView::WriteConfig)
    } else {
        Err(ErrorView::WrongArgumentCount { expected: 3, given: words(args).len() })
    }
}

/// Creates `<first word>.json`.
pub open spec fn generate_match_outcome(args: Seq<char>) -> Result<ActionView, ErrorView> {
    if words(args).len() == 0 {
        Err(ErrorView::WrongArgumentCount { expected: 1, given: 0 })
    } else {
        Ok(ActionView::CreateMatchSetupFile { file_name: words(args)[0] + ".json"@ })
    }
}

/// Selects a server by address, or else by name.
pub open spec fn server_select_outcome(data: CsctrlDataParent, args: Seq<char>) -> Result<ActionView, ErrorView> {
    if words(args).len() == 0 {
        Err(ErrorView::WrongArgumentCount { expected: 1, given: 0 })
    } else {
        let w = words(args)[0];
        if data.index_of(w) is Some {
            Ok(ActionView::SelectServer { address: w })
        } else {
            match name_position(data.servers@, w, 0) {
                Some(i) => Ok(ActionView::SelectServer { address: data.servers@[i].config.address@ }),
                None => Err(ErrorView::UnknownServer { address: w }),
            }
        }
    }
}

/// Sends the named match setup file to the target server's worker.
pub open spec fn match_setup_load_outcome(data: CsctrlDataParent, target: Seq<char>, args: Seq<char>) -> Result<
    ActionView,
    ErrorView,
> {
    if data.index_of(target) is None {
        Err(ErrorView::UnknownServer { address: target })
    } else if words(args).len() == 0 {
        Err(ErrorView::WrongArgumentCount { expected: 1, given: 0 })
    } else {
        Ok(ActionView::SendMatchSetupFile { address: target, file_name: words(args)[0] })
    }
}

/// Tells the target server's worker to start its match.
pub open spec fn match_start_outcome(data: CsctrlDataParent, target: Seq<char>) -> Result<ActionView, ErrorView> {
    if data.index_of(target) is Some {
        Ok(ActionView::SendToWorker { address: target, message: "server.match.start"@ })
    } else {
        Err(ErrorView::UnknownServer { address: target })
    }
}

pub struct Rcon;

impl Rcon {
    pub fn name(&self) -> (r: String)
        ensures
            r@ == "rcon"@,
    {
        "rcon".to_owned()
    }

    pub fn description(&self) -> String {
        "Executes commands in the currently selected server".to_owned()
    }

    pub fn variables(&self) -> String {
        "1. Command(s) text to send to the server".to_owned()
    }

    pub fn example(&self) -> String {
        "rcon sv_cheats 1".to_owned()
    }

    pub fn exec(&self, csctrl: &Csctrl, target_address: &str, arguments: &str) -> (r: Result<CsctrlAction, CsctrlError>)
        ensures
            crate::csctrl::outcome_view(r) == rcon_outcome(csctrl.data, target_address@, arguments@),
    {
        match csctrl.data.server_index(target_address) {
            Some(_) => {
                let mut message = "rcon ".to_owned();
                append_str(&mut message, arguments);
                Ok(CsctrlAction::SendToWorker { address: target_address.to_owned(), message })
            },
            None => Err(CsctrlError::UnknownServer { address: target_address.to_owned() }),
        }
    }
}

pub struct CsctrlGenerateServer;

impl CsctrlGenerateServer {
    pub fn name(&self) -> (r: String)
        ensures
            r@ == "csctrl.generate.server"@,
    {
        "csctrl.generate.server".to_owned()
    }

    pub fn description(&self) -> String {
        "Add a server entry to CSCTRL".to_owned()
    }

    pub fn variables(&self) -> String {
        "1. Name to save the server with; 2. Server address; 3. Server rcon password".to_owned()
    }

    pub fn example(&self) -> String {
        "csctrl.generate.server ServerA 0.0.0.0:27015 SuperRconPassword3".to_owned()
    }

    /// Appends a server with this name, address and password, and no
    /// default match setup, to the configuration.
    pub fn exec(&self, csctrl: &mut Csctrl, arguments: &str) -> (r: Result<CsctrlAction, CsctrlError>)
        requires
            old(csctrl).wf(),
        ensures
            final(csctrl).wf(),
            crate::csctrl::outcome_view(r) == generate_server_outcome(arguments@),
            final(csctrl).data == old(csctrl).data,
            final(csctrl).is_dirty() == old(csctrl).is_dirty(),
            final(csctrl).exit_requested() == old(csctrl).exit_requested(),
            r is Ok ==> final(csctrl).csctrl_config.servers@.drop_last() == old(csctrl).csctrl_config.servers@ && ({
                let s = final(csctrl).csctrl_config.servers@.last();
                &&& final(csctrl).csctrl_config.servers@.len() == old(csctrl).csctrl_config.servers@.len() + 1
                &&& s.name@ == words(arguments@)[0]
                &&& s.address@ == words(arguments@)[1]
                &&& s.rcon_password@ == words(arguments@)[2]
                &&& s.match_setup@.len() == 0
            }),
            r is Err ==> final(csctrl).csctrl_config == old(csctrl).csctrl_config,
    {
        let ws = split_arguments(arguments);
        if ws.len() != 3 {
            return Err(CsctrlError::WrongArgumentCount { expected: 3, given: ws.len() });
        }
        let setup = CsctrlServerSetup {
            name: ws[0].clone(),
            address: ws[1].clone(),
            rcon_password: ws[2].clone(),
            match_setup: String::new(),
        };
        csctrl.push_server_setup(setup);
        Ok(CsctrlAction::WriteConfig)
    }
}

pub struct CsctrlGenerateMatch;

impl CsctrlGenerateMatch {
    pub fn name(&self) -> (r: String)
        ensures
            r@ == "csctrl.generate.match"@,
    {
        "csctrl.generate.match".to_owned()
    }

    pub fn description(&self) -> String {
        "Generate a default match config file with a given name".to_owned()
    }

    pub fn variables(&self) -> String {
        "1. Name for the match config file that is generated".to_owned()
    }

    pub fn example(&self) -> String {
        "csctrl.generate.match TeamA-v-TeamB".to_owned()
    }

    pub fn exec(&self, arguments: &str) -> (r: Result<CsctrlAction, CsctrlError>)
        ensures
            crate::csctrl::outcome_view(r) == generate_match_outcome(arguments@),
    {
        let ws = split_arguments(arguments);
        if ws.len() == 0 {
            return Err(CsctrlError::WrongArgumentCount { expected: 1, given: 0 });
        }
        let mut file_name = ws[0].clone();
        append_str(&mut file_name, ".json");
        Ok(CsctrlAction::CreateMatchSetupFile { file_name })
    }
}

pub struct TerminalServerSelect;

impl TerminalServerSelect {
    pub fn name(&self) -> (r: String)
        ensures
            r@ == "terminal.server.select"@,
    {
        "terminal.server.select".to_owned()
    }

    pub fn description(&self) -> String {
        "Selects the server that later commands are aimed at".to_owned()
    }

    pub fn variables(&self) -> String {
        "1. Address or name of the server".to_owned()
    }

    pub fn example(&self) -> String {
        "terminal.server.select ServerA".to_owned()
    }

    pub fn exec(&self, csctrl: &Csctrl, arguments: &str) -> (r: Result<CsctrlAction, CsctrlError>)
        ensures
            crate::csctrl::outcome_view(r) == server_select_outcome(csctrl.data, arguments@),
    {
        let ws = split_arguments(arguments);
        if ws.len() == 0 {
            return Err(CsctrlError::WrongArgumentCount { expected: 1, given: 0 });
        }
        let w = ws[0].as_str();
        if csctrl.data.server_index(w).is_some() {
            return Ok(CsctrlAction::SelectServer { address: w.to_owned() });
        }
        match csctrl.data.name_index(w) {
            Some(i) => Ok(CsctrlAction::SelectServer { address: csctrl.data.servers[i].config.address.clone() }),
            None => Err(CsctrlError::UnknownServer { address: w.to_owned() }),
        }
    }
}

pub struct ServerMatchSetupLoad;

impl ServerMatchSetupLoad {
    pub fn name(&self) -> (r: String)
        ensures
            r@ == "server.match.setup.load"@,
    {
        "server.match.setup.load".to_owned()
    }

    pub fn description(&self) -> String {
        "Loads a match setup to a server instance".to_owned()
    }

    pub fn variables(&self) -> String {
        "1. Name of the match setup file".to_owned()
    }

    pub fn example(&self) -> String {
        "server.match.setup.load default".to_owned()
    }

    pub fn exec(&self, csctrl: &Csctrl, target_address: &str, arguments: &str) -> (r: Result<CsctrlAction, CsctrlError>)
        ensures
            crate::csctrl::outcome_view(r) == match_setup_load_outcome(csctrl.data, target_address@, arguments@),
    {
        if csctrl.data.server_index(target_address).is_none() {
            return Err(CsctrlError::UnknownServer { address: target_address.to_owned() });
        }
        let ws = split_arguments(arguments);
        if ws.len() == 0 {
            return Err(CsctrlError::WrongArgumentCount { expected: 1, given: 0 });
        }
        Ok(CsctrlAction::SendMatchSetupFile { address: target_address.to_owned(), file_name: ws[0].clone() })
    }
}

pub struct ServerMatchStart;

impl ServerMatchStart {
    pub fn name(&self) -> (r: String)
        ensures
            r@ == "server.match.start"@,
    {
        "server.match.start".to_owned()
    }

    pub fn description(&self) -> String {
        "Starts a match taking into account a servers' previously loaded match setup".to_owned()
    }

    pub fn variables(&self) -> String {
        "None".to_owned()
    }

    pub fn example(&self) -> String {
        "server.match.start".to_owned()
    }

    pub fn exec(&self, csctrl: &Csctrl, target_address: &str) -> (r: Result<CsctrlAction, CsctrlError>)
        ensures
            crate::csctrl::outcome_view(r) == match_start_outcome(csctrl.data, target_address@),
    {
        if csctrl.data.server_index(target_address).is_none() {
            return Err(CsctrlError::UnknownServer { address: target_address.to_owned() });
        }
        Ok(CsctrlAction::SendToWorker { address: target_address.to_owned(), message: self.name() })
    }
}

} // verus!

//! One extraction attempt as a state machine: each stage names the browser
//! command to run, and the command's result picks the next stage. Every path
//! that launched a browser passes through teardown before the attempt ends.
use vstd::prelude::*;

use crate::table::{build_investments, extract_rows, records_view, rows_view, Investment, TableError, TableRow};
use crate::wait::{wait_step, ElementWait, WaitStep, MAX_POLLS};

verus! {

/// The portal's login page.
pub const LOGIN_URL: &'static str = "https://secure.vanguardinvestor.co.uk/Login";

/// The login form's username field.
pub const USERNAME_FIELD: &'static str = "div.form-group.username input[type=\"text\"]";

/// The login form's password field.
pub const PASSWORD_FIELD: &'static str = "div.form-group.password input[type=\"password\"]";

/// The login form's submit button.
pub const SUBMIT_BUTTON: &'static str = "form.form-login button[type=\"submit\"]";

/// The "Investments" entry of the side navigation.
pub const INVESTMENTS_LINK: &'static str = "nav.side-navigation ul.secondary-navigation > li:nth-child(2) a";

/// The "Detailed view" toggle.
pub const DETAIL_TOGGLE: &'static str = "div.toggle-switch label";

/// The detailed holdings table.
pub const HOLDINGS_TABLE: &'static str = "table.table-investments-detailed";

/// A data row of the detailed holdings table.
pub const HOLDING_ROW: &'static str = "table.table-investments-detailed tr.product-row";

/// The rows that are read.
pub const TABLE_ROWS: &'static str = "table.table-investments-detailed tbody tr.product-row";

/// A row's name cell.
pub const NAME_CELL: &'static str = "td.cell-product-name .content-product-name";

/// A row's money cells.
pub const MONEY_CELL: &'static str = "td.cell-money";

/// Where an attempt stands.
#[derive(Clone, Copy, Debug, PartialEq, Eq, Structural)]
pub enum Stage {
    Launch,
    OpenLogin,
    SignIn,
    OpenInvestments,
    DetailedView,
    AwaitTable,
    AwaitRows,
    ReadRows,
    Teardown,
    Done,
}

/// What the browser driver is asked to do.
#[derive(Clone, Copy, Debug, PartialEq, Eq)]
pub enum Command {
    /// Start a browser and its event pump.
    Launch,
    /// Load a page.
    Navigate { url: &'static str },
    /// Find the three login controls (no waiting), type the credentials and
    /// click the submit control through script.
    SignIn { user_field: &'static str, password_field: &'static str, submit: &'static str },
    /// Look for an element once and click it through script.
    Click { selector: &'static str },
    /// Look for an element once.
    Find { selector: &'static str },
    /// Read the name cell and the money cells of every row.
    ReadRows { rows: &'static str, name: &'static str, money: &'static str },
    /// Close the page and stop the event pump, awaiting it.
    Teardown,
    /// Nothing left to do.
    Finish,
}

/// What the driver does after reporting a result.
#[derive(Clone, Copy, Debug, PartialEq, Eq, Structural)]
pub enum Pause {
    /// Run the next command at once.
    Go,
    /// Sleep this long, then run the same command again.
    Sleep { secs: u64 },
}

/// Why an attempt failed.
#[derive(Clone, Copy, Debug, PartialEq, Eq, Structural)]
pub enum ExtractError {
    /// The command of this stage failed.
    Step { stage: Stage },
    /// The element awaited at this stage never appeared.
    ElementNotFound { stage: Stage },
    /// The table's text did not give records.
    Table { error: TableError },
}

/// The stages that poll for an element which may render late.
pub open spec fn is_wait_stage(s: Stage) -> bool {
    s == Stage::OpenInvestments || s == Stage::DetailedView || s == Stage::AwaitTable || s == Stage::AwaitRows
}

/// The stage that follows a successful one.
pub open spec fn next_stage(s: Stage) -> Stage {
    match s {
        Stage::Launch => Stage::OpenLogin,
        Stage::OpenLogin => Stage::SignIn,
        Stage::SignIn => Stage::OpenInvestments,
        Stage::OpenInvestments => Stage::DetailedView,
        Stage::DetailedView => Stage::AwaitTable,
        Stage::AwaitTable => Stage::AwaitRows,
        Stage::AwaitRows => Stage::ReadRows,
        Stage::ReadRows => Stage::Teardown,
        Stage::Teardown => Stage::Done,
        Stage::Done => Stage::Done,
    }
}

/// The command each stage runs.
pub open spec fn command_of(s: Stage) -> Command {
    match s {
        Stage::Launch => Command::Launch,
        Stage::OpenLogin => Command::Navigate { url: LOGIN_URL },
        Stage::SignIn => Command::SignIn { user_field: USERNAME_FIELD, password_field: PASSWORD_FIELD, submit: SUBMIT_BUTTON },
        Stage::OpenInvestments => Command::Click { selector: INVESTMENTS_LINK },
        Stage::DetailedView => Command::Click { selector: DETAIL_TOGGLE },
        Stage::AwaitTable => Command::Find { selector: HOLDINGS_TABLE },
        Stage::AwaitRows => Command::Find { selector: HOLDING_ROW },
        Stage::ReadRows => Command::ReadRows { rows: TABLE_ROWS, name: NAME_CELL, money: MONEY_CELL },
        Stage::Teardown => Command::Teardown,
        Stage::Done => Command::Finish,
    }
}

/// One extraction attempt in progress.
pub struct Session {
    pub stage: Stage,
    pub wait: ElementWait,
    pub failure: Option<ExtractError>,
    pub records: Vec<Investment>,
}

impl Session {
    /// The session's invariant: an element wait in progress has polls left.
    pub open spec fn wf(&self) -> bool {
        self.wait.missed < MAX_POLLS
    }

    /// A fresh attempt, about to launch the browser.
    pub fn new() -> (r: Session)
        ensures
            r.wf(),
            r.stage == Stage::Launch,
            r.failure is None,
            r.records@.len() == 0,
    {
        Session { stage: Stage::Launch, wait: ElementWait::new(), failure: None, records: Vec::new() }
    }

    /// The command the current stage runs.
    pub fn command(&self) -> (r: Command)
        ensures
            r == command_of(self.stage),
    {
        match self.stage {
            Stage::Launch => Command::Launch,
            Stage::OpenLogin => Command::Navigate { url: LOGIN_URL },
            Stage::SignIn => Command::SignIn { user_field: USERNAME_FIELD, password_field: PASSWORD_FIELD, submit: SUBMIT_BUTTON },
            Stage::OpenInvestments => Command::Click { selector: INVESTMENTS_LINK },
            Stage::DetailedView => Command::Click { selector: DETAIL_TOGGLE },
            Stage::AwaitTable => Command::Find { selector: HOLDINGS_TABLE },
            Stage::AwaitRows => Command::Find { selector: HOLDING_ROW },
            Stage::ReadRows => Command::ReadRows { rows: TABLE_ROWS, name: NAME_CELL, money: MONEY_CELL },
            Stage::Teardown => Command::Teardown,
            Stage::Done => Command::Finish,
        }
    }

    /// Whether the attempt is over.
    pub fn is_done(&self) -> (r: bool)
        ensures
            r == (self.stage == Stage::Done),
    {
        self.stage == Stage::Done
    }

    /// Reports whether the current command succeeded. A failed launch ends
    /// the attempt; any other failure goes to teardown, except that a wait
    /// stage polls again after a pause until its polls run out. Teardown
    /// always ends the attempt; the first failure is the one kept. Rows that
    /// were read are reported with `report_rows` instead.
    pub fn report(&mut self, ok: bool) -> (r: Pause)
        requires
            old(self).wf(),
            old(self).stage != Stage::Done,
            old(self).stage == Stage::ReadRows ==> !ok,
        ensures
            final(self).wf(),
            final(self).records == old(self).records,
            ({
                let s = old(self).stage;
                let step = wait_step(old(self).wait.missed as nat, ok);
                if ok && s != Stage::Teardown {
                    &&& final(self).stage == next_stage(s)
                    &&& final(self).failure == old(self).failure
                    &&& final(self).wait.missed == 0
                    &&& r == Pause::Go
                } else if s == Stage::Teardown {
                    &&& final(self).stage == Stage::Done
                    &&& final(self).failure == (if old(self).failure is None && !ok {
                        Some(ExtractError::Step { stage: s })
                    } else {
                        old(self).failure
                    })
                    &&& r == Pause::Go
                } else if s == Stage::Launch {
                    &&& final(self).stage == Stage::Done
                    &&& final(self).failure == Some(ExtractError::Step { stage: s })
                    &&& r == Pause::Go
                } else if is_wait_stage(s) && step is Sleep {
                    &&& final(self).stage == s
                    &&& final(self).failure == old(self).failure
                    &&& final(self).wait.missed == old(self).wait.missed + 1
                    &&& r == (Pause::Sleep { secs: step->secs })
                } else if is_wait_stage(s) {
                    &&& final(self).stage == Stage::Teardown
                    &&& final(self).failure == Some(ExtractError::ElementNotFound { stage: s })
                    &&& r == Pause::Go
                } else {
                    &&& final(self).stage == Stage::Teardown
                    &&& final(self).failure == Some(ExtractError::Step { stage: s })
                    &&& r == Pause::Go
                }
            }),
    {
        let s = self.stage;
        if s == Stage::Teardown {
            if self.failure.is_none() && !ok {
                self.failure = Some(ExtractError::Step { stage: s });
            }
            self.stage = Stage::Done;
            return Pause::Go;
        }
        if ok {
            self.stage = match s {
                Stage::Launch => Stage::OpenLogin,
                Stage::OpenLogin => Stage::SignIn,
                Stage::SignIn => Stage::OpenInvestments,
                Stage::OpenInvestments => Stage::DetailedView,
                Stage::DetailedView => Stage::AwaitTable,
                Stage::AwaitTable => Stage::AwaitRows,
                Stage::AwaitRows => Stage::ReadRows,
                Stage::ReadRows => Stage::Teardown,
                Stage::Teardown => Stage::Done,
                Stage::Done => Stage::Done,
            };
            self.wait = ElementWait::new();
            return Pause::Go;
        }
        if s == Stage::Launch {
            self.failure = Some(ExtractError::Step { stage: s });
            self.stage = Stage::Done;
            return Pause::Go;
        }
        let waits = s == Stage::OpenInvestments || s == Stage::DetailedView || s == Stage::AwaitTable
            || s == Stage::AwaitRows;
        if waits {
            match self.wait.record_poll(false) {
                WaitStep::Sleep { secs } => Pause::Sleep { secs },
                _ => {
                    self.failure = Some(ExtractError::ElementNotFound { stage: s });
                    self.stage = Stage::Teardown;
                    self.wait = ElementWait::new();
                    Pause::Go
                },
            }
        } else {
            self.failure = Some(ExtractError::Step { stage: s });
            self.stage = Stage::Teardown;
            Pause::Go
        }
    }

    /// Hands over the rows read from the table: they become the records,
    /// or the table's fault becomes the attempt's failure. Teardown follows
    /// either way.
    pub fn report_rows(&mut self, rows: &Vec<TableRow>)
        requires
            old(self).wf(),
            old(self).stage == Stage::ReadRows,
            old(self).failure is None,
        ensures
            final(self).wf(),
            final(self).stage == Stage::Teardown,
            match extract_rows(rows_view(rows@)) {
                Ok(v) => final(self).failure is None && records_view(final(self).records@) == v
                    && forall|i: int| 0 <= i < final(self).records@.len() ==> (#[trigger] final(self).records@[i]).valid(),
                Err(e) => final(self).failure == Some(ExtractError::Table { error: e }),
            },
    {
        match build_investments(rows) {
            Ok(v) => {
                self.records = v;
            },
            Err(e) => {
                self.failure = Some(ExtractError::Table { error: e });
            },
        }
        self.stage = Stage::Teardown;
    }

    /// The attempt's result once it is over: its records, or its first failure.
    pub fn into_result(self) -> (r: Result<Vec<Investment>, ExtractError>)
        requires
            self.stage == Stage::Done,
        ensures
            match self.failure {
                Some(e) => r == Err::<Vec<Investment>, ExtractError>(e),
                None => r matches Ok(v) && v@ == self.records@,
            },
    {
        match self.failure {
            Some(e) => Err(e),
            None => Ok(self.records),
        }
    }
}

} // verus!

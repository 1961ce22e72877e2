use vstd::prelude::*;
use crate::capabilities::{TileMatrixSet, TileMatrixV};
use crate::errors::NavigationError;
use crate::navigation::{
    matrix_key, spec_pan, spec_zoom_in, spec_zoom_out, Direction, NavigationState, Quadrant,
};
use crate::url_template::{spec_resolve, UrlTemplate};

verus! {

/// One user navigation step.
#[derive(Clone, Copy, Debug, PartialEq, Eq, Structural)]
pub enum NavigationCommand {
    ZoomIn(Quadrant),
    ZoomOut,
    Pan(Direction),
}

/// Where one command takes the cursor.
pub open spec fn spec_nav_step(
    n: NavigationState,
    cmd: NavigationCommand,
    ms: Map<Seq<char>, TileMatrixV>,
) -> Result<NavigationState, NavigationError> {
    match cmd {
        NavigationCommand::ZoomIn(q) => spec_zoom_in(n, q, ms),
        NavigationCommand::ZoomOut => spec_zoom_out(n, ms),
        NavigationCommand::Pan(d) => spec_pan(n, d, ms),
    }
}

/// The version counter after one successful step.
pub open spec fn spec_next_version(v: u64) -> u64 {
    if v == u64::MAX {
        0
    } else {
        (v + 1) as u64
    }
}

/// Owns one session's matrices, template and cursor. It does no fetching
/// itself: the caller takes the resolved address to its own fetch and decode
/// collaborators, tagging each fetch with the version so a response that
/// arrives after a later successful step can be recognized as stale and
/// dropped.
pub struct TileCoordinator {
    pub matrices: TileMatrixSet,
    pub url_template: UrlTemplate,
    pub nav: NavigationState,
    pub version: u64,
}

/// The address the current cursor resolves to.
pub open spec fn spec_current_address(c: TileCoordinator) -> Seq<char> {
    spec_resolve(c.url_template@, matrix_key(c.nav.level), c.nav.current_column, c.nav.current_row)
}

impl TileCoordinator {
    /// Starts a session at matrix "0", row 0, column 0.
    pub fn new(url_template: UrlTemplate, matrices: TileMatrixSet) -> (r: TileCoordinator)
        ensures
            r.url_template == url_template,
            r.matrices == matrices,
            r.nav == (NavigationState { level: 0u32, current_row: 0u32, current_column: 0u32 }),
            r.version == 0,
    {
        TileCoordinator { matrices, url_template, nav: NavigationState::new(), version: 0 }
    }

    /// The tile address of the current cursor. Without an intervening
    /// `apply`, every call returns the same string.
    pub fn current_address(&self) -> (r: String)
        ensures
            r@ == spec_current_address(*self),
    {
        let id = self.nav.current_matrix_id();
        self.url_template.resolve(id.as_str(), self.nav.current_column, self.nav.current_row)
    }

    /// Applies one navigation command. On success the cursor moves and the
    /// version advances; on failure nothing changes, and the error is the
    /// step's own.
    pub fn apply(&mut self, cmd: NavigationCommand) -> (r: Result<(), NavigationError>)
        ensures
            final(self).matrices == old(self).matrices,
            final(self).url_template == old(self).url_template,
            (match spec_nav_step(old(self).nav, cmd, old(self).matrices@) {
                Ok(n2) => r is Ok && final(self).nav == n2 && final(self).version
                    == spec_next_version(old(self).version),
                Err(e) => r == Err::<(), NavigationError>(e) && *final(self) == *old(self),
            }),
    {
        let step = match cmd {
            NavigationCommand::ZoomIn(q) => self.nav.zoom_in(q, &self.matrices),
            NavigationCommand::ZoomOut => self.nav.zoom_out(&self.matrices),
            NavigationCommand::Pan(d) => self.nav.pan(d, &self.matrices),
        };
        match step {
            Ok(()) => {
                self.version = if self.version == u64::MAX {
                    0
                } else {
                    self.version + 1
                };
                Ok(())
            },
            Err(e) => Err(e),
        }
    }

    /// The token identifying the current cursor; a fetch started now carries
    /// it.
    pub fn current_version(&self) -> (r: u64)
        ensures
            r == self.version,
    {
        self.version
    }

    /// Whether a response tagged with `token` still belongs to the current
    /// cursor; a stale response must be dropped by the caller.
    pub fn is_current(&self, token: u64) -> (r: bool)
        ensures
            r == (token == self.version),
    {
        token == self.version
    }
}

/// Two addresses resolved from one coordinator state, with no `apply` between
/// them, are identical strings: the address is a function of the state alone.
pub proof fn lemma_current_address_idempotent(c: TileCoordinator, a1: Seq<char>, a2: Seq<char>)
    requires
        a1 == spec_current_address(c),
        a2 == spec_current_address(c),
    ensures
        a1 == a2,
{
}

} // verus!

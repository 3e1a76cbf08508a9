use vstd::prelude::*;

verus! {

/// What a command line asks for.
pub enum Action {
    /// `sites`: list all sites.
    ListSites,
    /// `site <ID>`: show one site.
    ShowSite(String),
    /// `auth login`: enter credentials.
    Login,
    /// `auth reset`: forget the stored credentials.
    Reset,
    /// `auth` without a known subcommand: nothing to do.
    Nothing,
    /// Any other command, or none.
    Invalid,
}

pub enum ActionView {
    ListSites,
    ShowSite(Seq<char>),
    Login,
    Reset,
    Nothing,
    Invalid,
}

impl View for Action {
    type V = ActionView;

    open spec fn view(&self) -> ActionView {
        match self {
            Action::ListSites => ActionView::ListSites,
            Action::ShowSite(id) => ActionView::ShowSite(id@),
            Action::Login => ActionView::Login,
            Action::Reset => ActionView::Reset,
            Action::Nothing => ActionView::Nothing,
            Action::Invalid => ActionView::Invalid,
        }
    }
}

/// The action for a command, its nested `auth` subcommand, and its site id.
pub open spec fn action_of(
    command: Option<Seq<char>>,
    nested: Option<Seq<char>>,
    id: Option<Seq<char>>,
) -> ActionView {
    match command {
        Some(c) => if c == seq!['s', 'i', 't', 'e', 's'] {
            ActionView::ListSites
        } else if c == seq!['s', 'i', 't', 'e'] {
            match id {
                Some(i) => ActionView::ShowSite(i),
                None => ActionView::Invalid,
            }
        } else if c == seq!['a', 'u', 't', 'h'] {
            match nested {
                Some(n) => if n == seq!['l', 'o', 'g', 'i', 'n'] {
                    ActionView::Login
                } else if n == seq!['r', 'e', 's', 'e', 't'] {
                    ActionView::Reset
                } else {
                    ActionView::Nothing
                },
                None => ActionView::Nothing,
            }
        } else {
            ActionView::Invalid
        },
        None => ActionView::Invalid,
    }
}

/// Whether an action calls the remote API, and so needs stored credentials.
pub open spec fn needs_credentials(a: ActionView) -> bool {
    a is ListSites || a is ShowSite
}

pub open spec fn opt_view(s: Option<&str>) -> Option<Seq<char>> {
    match s {
        Some(t) => Some(t@),
        None => None,
    }
}

fn same(a: &str, b: &str) -> (r: bool)
    ensures
        r == (a@ == b@),
{
    String::from_str(a) == String::from_str(b)
}

/// The action for a command name, the name of the subcommand under `auth`, and the
/// id given to `site`.
pub fn dispatch(command: Option<&str>, nested: Option<&str>, id: Option<&str>) -> (r: Action)
    ensures
        r@ == action_of(opt_view(command), opt_view(nested), opt_view(id)),
{
    proof {
        reveal_strlit("sites");
        reveal_strlit("site");
        reveal_strlit("auth");
        reveal_strlit("login");
        reveal_strlit("reset");
        assert("sites"@ =~= seq!['s', 'i', 't', 'e', 's']);
        assert("site"@ =~= seq!['s', 'i', 't', 'e']);
        assert("auth"@ =~= seq!['a', 'u', 't', 'h']);
        assert("login"@ =~= seq!['l', 'o', 'g', 'i', 'n']);
        assert("reset"@ =~= seq!['r', 'e', 's', 'e', 't']);
    }
    let c = match command {
        Some(c) => c,
        None => {
            return Action::Invalid;
        },
    };
    if same(c, "sites") {
        Action::ListSites
    } else if same(c, "site") {
        match id {
            Some(i) => Action::ShowSite(String::from_str(i)),
            None => Action::Invalid,
        }
    } else if same(c, "auth") {
        match nested {
            Some(n) => {
                if same(n, "login") {
                    Action::Login
                } else if same(n, "reset") {
                    Action::Reset
                } else {
                    Action::Nothing
                }
            },
            None => Action::Nothing,
        }
    } else {
        Action::Invalid
    }
}

/// Whether the action calls the remote API, and so needs stored credentials.
pub fn needs_login(a: &Action) -> (r: bool)
    ensures
        r == needs_credentials(a@),
{
    match a {
        Action::ListSites | Action::ShowSite(_) => true,
        _ => false,
    }
}

} // verus!

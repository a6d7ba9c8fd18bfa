//! The table of routes: which handler answers which request, and whether the
//! guard stands before it.

use vstd::prelude::*;
use vstd::string::*;

verus! {

/// The methods that the routes answer.
#[derive(Debug, Clone, Copy, PartialEq, Eq, Structural)]
pub enum Method {
    Get,
    Post,
    Put,
}

/// The handlers, by their names.
#[derive(Debug, Clone, Copy, PartialEq, Eq, Structural)]
pub enum Handler {
    Register,
    Login,
    GetAllUsers,
    GetUserById,
    UpdateUserEmail,
    UpdateUserPassword,
    DeleteUser,
    GetPortfolios,
    GetPortfolioById,
    CreatePortfolio,
    UpdatePortfolioName,
    DeletePortfolio,
    GetLatestTickerInfo,
    AddTicker,
    DeleteTicker,
    TickersFromPortfolio,
    TickerSearch,
    TickerExtensiveSearch,
}

/// One route. A part of the path in braces stands for any text.
#[derive(Debug, Clone, PartialEq, Eq)]
pub struct Route {
    pub path: String,
    pub method: Method,
    pub handler: Handler,
    /// Whether a request must pass the guard before it reaches the handler.
    pub guarded: bool,
}

/// A [`Route`] as a mathematical value.
pub struct RouteView {
    pub path: Seq<char>,
    pub method: Method,
    pub handler: Handler,
    pub guarded: bool,
}

impl View for Route {
    type V = RouteView;

    open spec fn view(&self) -> RouteView {
        RouteView {
            path: self.path@,
            method: self.method,
            handler: self.handler,
            guarded: self.guarded,
        }
    }
}

/// How many routes there are.
pub const ROUTES: usize = 18;

/// The route at position `i` of the table.
pub open spec fn route_at(i: int) -> RouteView {
    if i == 0 {
        RouteView {
            path: "/register"@,
            method: Method::Post,
            handler: Handler::Register,
            guarded: false,
        }
    } else if i == 1 {
        RouteView {
            path: "/login"@,
            method: Method::Get,
            handler: Handler::Login,
            guarded: false,
        }
    } else if i == 2 {
        RouteView {
            path: "/users"@,
            method: Method::Get,
            handler: Handler::GetAllUsers,
            guarded: false,
        }
    } else if i == 3 {
        RouteView {
            path: "/user"@,
            method: Method::Get,
            handler: Handler::GetUserById,
            guarded: false,
        }
    } else if i == 4 {
        RouteView {
            path: "/user/email"@,
            method: Method::Put,
            handler: Handler::UpdateUserEmail,
            guarded: true,
        }
    } else if i == 5 {
        RouteView {
            path: "/user/password"@,
            method: Method::Put,
            handler: Handler::UpdateUserPassword,
            guarded: true,
        }
    } else if i == 6 {
        RouteView {
            path: "/user/{id}"@,
            method: Method::Put,
            handler: Handler::DeleteUser,
            guarded: false,
        }
    } else if i == 7 {
        RouteView {
            path: "/portfolios"@,
            method: Method::Get,
            handler: Handler::GetPortfolios,
            guarded: true,
        }
    } else if i == 8 {
        RouteView {
            path: "/portfolio"@,
            method: Method::Get,
            handler: Handler::GetPortfolioById,
            guarded: true,
        }
    } else if i == 9 {
        RouteView {
            path: "portfolio/new"@,
            method: Method::Post,
            handler: Handler::CreatePortfolio,
            guarded: true,
        }
    } else if i == 10 {
        RouteView {
            path: "portfolio/name"@,
            method: Method::Put,
            handler: Handler::UpdatePortfolioName,
            guarded: true,
        }
    } else if i == 11 {
        RouteView {
            path: "portfolio/{id}"@,
            method: Method::Put,
            handler: Handler::DeletePortfolio,
            guarded: true,
        }
    } else if i == 12 {
        RouteView {
            path: "/ticker/info"@,
            method: Method::Get,
            handler: Handler::GetLatestTickerInfo,
            guarded: true,
        }
    } else if i == 13 {
        RouteView {
            path: "/ticker/new"@,
            method: Method::Post,
            handler: Handler::AddTicker,
            guarded: true,
        }
    } else if i == 14 {
        RouteView {
            path: "/ticker/{ticker}"@,
            method: Method::Put,
            handler: Handler::DeleteTicker,
            guarded: true,
        }
    } else if i == 15 {
        RouteView {
            path: "/tickers/{portfolio_id}"@,
            method: Method::Get,
            handler: Handler::TickersFromPortfolio,
            guarded: true,
        }
    } else if i == 16 {
        RouteView {
            path: "/ticker/search/{name}"@,
            method: Method::Get,
            handler: Handler::TickerSearch,
            guarded: true,
        }
    } else {
        RouteView {
            path: "/ticker/search/{name}/extended"@,
            method: Method::Get,
            handler: Handler::TickerExtensiveSearch,
            guarded: true,
        }
    }
}

/// The handlers that answer without the guard: registration and login, the
/// reading of accounts, and the deletion of an account.
pub open spec fn is_open(handler: Handler) -> bool {
    ||| handler == Handler::Register
    ||| handler == Handler::Login
    ||| handler == Handler::GetAllUsers
    ||| handler == Handler::GetUserById
    ||| handler == Handler::DeleteUser
}

fn route(path: &str, method: Method, handler: Handler, guarded: bool) -> (r: Route)
    ensures
        r@ == (RouteView { path: path@, method, handler, guarded }),
{
    Route { path: String::from_str(path), method, handler, guarded }
}

/// The table of routes, in the order in which they are registered.
pub fn setup_routes() -> (routes: Vec<Route>)
    ensures
        routes@.len() == ROUTES,
        forall|i: int| 0 <= i < ROUTES ==> (#[trigger] routes@[i])@ == route_at(i),
{
    let mut routes: Vec<Route> = Vec::new();
    routes.push(route("/register", Method::Post, Handler::Register, false));
    routes.push(route("/login", Method::Get, Handler::Login, false));
    routes.push(route("/users", Method::Get, Handler::GetAllUsers, false));
    routes.push(route("/user", Method::Get, Handler::GetUserById, false));
    routes.push(route("/user/email", Method::Put, Handler::UpdateUserEmail, true));
    routes.push(route("/user/password", Method::Put, Handler::UpdateUserPassword, true));
    routes.push(route("/user/{id}", Method::Put, Handler::DeleteUser, false));
    routes.push(route("/portfolios", Method::Get, Handler::GetPortfolios, true));
    routes.push(route("/portfolio", Method::Get, Handler::GetPortfolioById, true));
    routes.push(route("portfolio/new", Method::Post, Handler::CreatePortfolio, true));
    routes.push(route("portfolio/name", Method::Put, Handler::UpdatePortfolioName, true));
    routes.push(route("portfolio/{id}", Method::Put, Handler::DeletePortfolio, true));
    routes.push(route("/ticker/info", Method::Get, Handler::GetLatestTickerInfo, true));
    routes.push(route("/ticker/new", Method::Post, Handler::AddTicker, true));
    routes.push(route("/ticker/{ticker}", Method::Put, Handler::DeleteTicker, true));
    routes.push(route("/tickers/{portfolio_id}", Method::Get, Handler::TickersFromPortfolio, true));
    routes.push(route("/ticker/search/{name}", Method::Get, Handler::TickerSearch, true));
    routes.push(
        route("/ticker/search/{name}/extended", Method::Get, Handler::TickerExtensiveSearch, true),
    );
    routes
}

/// Every route is guarded but those of the open handlers, and every handler
/// has one route.
pub proof fn lemma_routes_guarded()
    ensures
        forall|i: int|
            0 <= i < ROUTES ==> (#[trigger] route_at(i)).guarded == !is_open(route_at(i).handler),
        forall|i: int, j: int|
            0 <= i < j < ROUTES ==> (#[trigger] route_at(i)).handler != (#[trigger] route_at(
                j,
            )).handler,
{
}

} // verus!

use vstd::prelude::*;

verus! {

/// Body of the greeting page.
pub const GREETING: &'static str = "Eyyy, Voxel Rocket!";

/// The request methods the companion server answers.
#[derive(Debug, Clone, Copy, PartialEq, Eq, Structural)]
pub enum Method {
    Get,
}

/// The pages of the companion server.
#[derive(Debug, Clone, Copy, PartialEq, Eq, Structural)]
pub enum Page {
    /// The greeting page, answered by `index`.
    Index,
}

/// A route: a page served for `method` at `path` under the mount point
/// `base`.
#[derive(Debug, Clone, Copy)]
pub struct Route {
    pub base: &'static str,
    pub method: Method,
    pub path: &'static str,
    pub page: Page,
}

/// The greeting page.
pub fn index() -> (r: &'static str)
    ensures
        r@ == GREETING@,
{
    GREETING
}

/// The companion server's routes: the greeting page for `GET /`, mounted at
/// the root.
pub fn rocket() -> (r: Vec<Route>)
    ensures
        r@.len() == 1,
        r@[0].base@ == "/"@,
        r@[0].method == Method::Get,
        r@[0].path@ == "/"@,
        r@[0].page == Page::Index,
{
    let mut routes: Vec<Route> = Vec::new();
    routes.push(Route { base: "/", method: Method::Get, path: "/", page: Page::Index });
    routes
}

} // verus!

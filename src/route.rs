//! The application's routes and the paths they are mounted at.
use vstd::prelude::*;
use vstd::string::{is_ascii, is_ascii_spec_bytes, StringSliceAdditionalSpecFns};

verus! {

/// A page of the application.
#[derive(Clone, Copy, Debug, PartialEq, Eq, Structural)]
pub enum Route {
    /// The landing page, at `/`.
    Home,
    /// The user's page, at `/my`.
    My,
}

/// The path, as bytes, at which a route is mounted.
pub open spec fn route_path(r: Route) -> Seq<u8> {
    match r {
        Route::Home => seq![47u8],
        Route::My => seq![47u8, 109u8, 121u8],
    }
}

impl Route {
    /// The path this route is mounted at.
    pub fn to_path(&self) -> (r: &'static str)
        ensures
            r.spec_bytes() == route_path(*self),
    {
        broadcast use is_ascii_spec_bytes;

        match self {
            Route::Home => {
                let p: &'static str = "/";
                proof {
                    reveal_strlit("/");
                    assert(p@ =~= seq!['/']);
                    assert(is_ascii(p));
                }
                assert(p.spec_bytes() =~= route_path(*self));
                p
            },
            Route::My => {
                let p: &'static str = "/my";
                proof {
                    reveal_strlit("/my");
                    assert(p@ =~= seq!['/', 'm', 'y']);
                    assert(is_ascii(p));
                }
                assert(p.spec_bytes() =~= route_path(*self));
                p
            },
        }
    }

    /// The route mounted exactly at `path`, if any.
    pub fn recognize(path: &str) -> (r: Option<Route>)
        ensures
            r matches Some(x) ==> route_path(x) == path.spec_bytes(),
            r is None ==> forall|x: Route| route_path(x) != path.spec_bytes(),
    {
        let b = path.as_bytes();
        if b.len() == 1 && b[0] == 47u8 {
            assert(b@ =~= route_path(Route::Home));
            Some(Route::Home)
        } else if b.len() == 3 && b[0] == 47u8 && b[1] == 109u8 && b[2] == 121u8 {
            assert(b@ =~= route_path(Route::My));
            Some(Route::My)
        } else {
            assert forall|x: Route| route_path(x) != path.spec_bytes() by {
                if route_path(x) == b@ {
                    assert(route_path(x)[0] == b@[0]);
                }
            }
            None
        }
    }
}

} // verus!

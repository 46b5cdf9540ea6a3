//! The router: from a method and a path to the route that handles them.

use crate::bytes::{
    ascii, copy_range, find, find_byte, lemma_find, lemma_find_is_first, literal, same_bytes,
    SLASH,
};
use vstd::prelude::*;
use vstd::slice::slice_to_vec;

verus! {

/// The route that handles a request.
#[derive(Clone, Debug, PartialEq, Eq)]
pub enum Route {
    /// `GET /files/{name}`: serve the file `name` of the directory.
    FileGet { name: Vec<u8> },
    /// `POST /files/{name}`: store the request body as the file `name`.
    FilePost { name: Vec<u8> },
    /// `/user-agent`: answer with the value of the `User-Agent` header.
    UserAgent,
    /// `/echo/{rest}`: answer with `rest`.
    Echo { rest: Vec<u8> },
    /// `/`: answer with an empty 200.
    Root,
    /// Anything else: answer with an empty 404.
    NotFound,
}

/// The mathematical value of a [`Route`].
pub enum RouteView {
    FileGet { name: Seq<u8> },
    FilePost { name: Seq<u8> },
    UserAgent,
    Echo { rest: Seq<u8> },
    Root,
    NotFound,
}

impl View for Route {
    type V = RouteView;

    open spec fn view(&self) -> RouteView {
        match *self {
            Route::FileGet { name } => RouteView::FileGet { name: name@ },
            Route::FilePost { name } => RouteView::FilePost { name: name@ },
            Route::UserAgent => RouteView::UserAgent,
            Route::Echo { rest } => RouteView::Echo { rest: rest@ },
            Route::Root => RouteView::Root,
            Route::NotFound => RouteView::NotFound,
        }
    }
}

/// The values of a list of byte strings, in order.
pub open spec fn views(parts: Seq<Vec<u8>>) -> Seq<Seq<u8>> {
    Seq::new(parts.len(), |i: int| parts[i]@)
}

/// The segments of a path: it is cut at its first two slashes, so that there
/// are at most three segments and the last one holds whatever is left,
/// further slashes included.
pub open spec fn segments(path: Seq<u8>) -> Seq<Seq<u8>> {
    let first = find(path, SLASH, 0);
    if first >= path.len() {
        seq![path]
    } else {
        let second = find(path, SLASH, first + 1);
        if second >= path.len() {
            seq![path.subrange(0, first), path.subrange(first + 1, path.len() as int)]
        } else {
            seq![
                path.subrange(0, first),
                path.subrange(first + 1, second),
                path.subrange(second + 1, path.len() as int),
            ]
        }
    }
}

/// The segments of a path, joined again by slashes.
pub open spec fn joined(parts: Seq<Seq<u8>>) -> Seq<u8>
    decreases parts.len(),
{
    if parts.len() == 0 {
        Seq::empty()
    } else if parts.len() == 1 {
        parts[0]
    } else {
        joined(parts.drop_last()) + seq![SLASH] + parts.last()
    }
}

/// The route for a method and a path. The patterns are tried in this order,
/// and the first that matches decides:
///
/// | method | segments                 | route       |
/// |--------|--------------------------|-------------|
/// | `GET`  | `""`, `"files"`, name    | `FileGet`   |
/// | `POST` | `""`, `"files"`, name    | `FilePost`  |
/// | any    | `""`, `"user-agent"`     | `UserAgent` |
/// | any    | `""`, `"echo"`, rest     | `Echo`      |
/// | any    | `""`, `""`               | `Root`      |
/// | any    | anything else            | `NotFound`  |
pub open spec fn route_of(method: Seq<u8>, path: Seq<u8>) -> RouteView {
    let parts = segments(path);
    if parts.len() == 3 && parts[0].len() == 0 && parts[1] == ascii("files"@) && method == ascii(
        "GET"@,
    ) {
        RouteView::FileGet { name: parts[2] }
    } else if parts.len() == 3 && parts[0].len() == 0 && parts[1] == ascii("files"@) && method
        == ascii("POST"@) {
        RouteView::FilePost { name: parts[2] }
    } else if parts.len() == 2 && parts[0].len() == 0 && parts[1] == ascii("user-agent"@) {
        RouteView::UserAgent
    } else if parts.len() == 3 && parts[0].len() == 0 && parts[1] == ascii("echo"@) {
        RouteView::Echo { rest: parts[2] }
    } else if parts.len() == 2 && parts[0].len() == 0 && parts[1].len() == 0 {
        RouteView::Root
    } else {
        RouteView::NotFound
    }
}

/// A path has one to three segments, joining them by slashes gives the path
/// back, and no segment holds a slash, but for the third.
pub proof fn lemma_segments_join(path: Seq<u8>)
    ensures
        1 <= segments(path).len() <= 3,
        joined(segments(path)) == path,
        segments(path).len() == 2 ==> path == segments(path)[0] + seq![SLASH] + segments(path)[1],
        segments(path).len() == 3 ==> path == segments(path)[0] + seq![SLASH] + segments(path)[1]
            + seq![SLASH] + segments(path)[2],
        forall|i: int, j: int|
            0 <= i < segments(path).len() && i < 2 && 0 <= j < segments(path)[i].len()
                ==> segments(path)[i][j] != SLASH,
{
    let parts = segments(path);
    let first = find(path, SLASH, 0);
    lemma_find_is_first(path, SLASH, 0);
    if first < path.len() {
        let second = find(path, SLASH, first + 1);
        lemma_find_is_first(path, SLASH, first + 1);
        if second < path.len() {
            assert(parts.drop_last().drop_last() =~= seq![parts[0]]);
            assert(joined(seq![parts[0]]) == parts[0]);
            assert(joined(parts.drop_last()) == parts[0] + seq![SLASH] + parts[1]);
        } else {
            assert(joined(parts.drop_last()) == parts[0]);
        }
    }
}

/// A path that is a slash, a keyword without a slash, a slash and a rest has
/// the three segments empty, keyword and rest.
pub proof fn lemma_segments_of_three(keyword: Seq<u8>, rest: Seq<u8>)
    requires
        forall|i: int| 0 <= i < keyword.len() ==> keyword[i] != SLASH,
    ensures
        segments(seq![SLASH] + keyword + seq![SLASH] + rest) == seq![Seq::empty(), keyword, rest],
{
    let path = seq![SLASH] + keyword + seq![SLASH] + rest;
    lemma_find(path, SLASH, 0, 0);
    lemma_find(path, SLASH, 1, 1 + keyword.len() as int);
    assert(path.subrange(0, 0) =~= Seq::<u8>::empty());
    assert(path.subrange(1, 1 + keyword.len() as int) =~= keyword);
    assert(path.subrange(2 + keyword.len() as int, path.len() as int) =~= rest);
}

/// A path that is a slash and a keyword without a slash has the two segments
/// empty and keyword.
pub proof fn lemma_segments_of_two(keyword: Seq<u8>)
    requires
        forall|i: int| 0 <= i < keyword.len() ==> keyword[i] != SLASH,
    ensures
        segments(seq![SLASH] + keyword) == seq![Seq::empty(), keyword],
{
    let path = seq![SLASH] + keyword;
    lemma_find(path, SLASH, 0, 0);
    lemma_find(path, SLASH, 1, path.len() as int);
    assert(path.subrange(0, 0) =~= Seq::<u8>::empty());
    assert(path.subrange(1, path.len() as int) =~= keyword);
}

/// Cuts a path into its segments.
pub fn split_path(path: &[u8]) -> (parts: Vec<Vec<u8>>)
    ensures
        views(parts@) == segments(path@),
{
    let mut parts: Vec<Vec<u8>> = Vec::new();
    let first = find_byte(path, SLASH, 0);
    if first >= path.len() {
        parts.push(copy_range(path, 0, path.len()));
        assert(path@.subrange(0, path@.len() as int) =~= path@);
    } else {
        parts.push(copy_range(path, 0, first));
        let second = find_byte(path, SLASH, first + 1);
        if second >= path.len() {
            parts.push(copy_range(path, first + 1, path.len()));
        } else {
            parts.push(copy_range(path, first + 1, second));
            parts.push(copy_range(path, second + 1, path.len()));
        }
    }
    parts
}

/// Finds the route for a method and a path.
pub fn route(method: &[u8], path: &[u8]) -> (r: Route)
    ensures
        r@ == route_of(method@, path@),
{
    proof {
        reveal_strlit("files");
        reveal_strlit("GET");
        reveal_strlit("POST");
        reveal_strlit("user-agent");
        reveal_strlit("echo");
    }
    let parts = split_path(path);
    assert(forall|i: int| 0 <= i < parts@.len() ==> views(parts@)[i] == parts@[i]@);
    if parts.len() == 3 && parts[0].len() == 0 {
        let files = literal("files");
        let echo = literal("echo");
        if same_bytes(parts[1].as_slice(), files.as_slice()) {
            let get = literal("GET");
            let post = literal("POST");
            if same_bytes(method, get.as_slice()) {
                let name = slice_to_vec(parts[2].as_slice());
                Route::FileGet { name }
            } else if same_bytes(method, post.as_slice()) {
                let name = slice_to_vec(parts[2].as_slice());
                Route::FilePost { name }
            } else {
                Route::NotFound
            }
        } else if same_bytes(parts[1].as_slice(), echo.as_slice()) {
            let rest = slice_to_vec(parts[2].as_slice());
            Route::Echo { rest }
        } else {
            Route::NotFound
        }
    } else if parts.len() == 2 && parts[0].len() == 0 {
        let user_agent = literal("user-agent");
        if same_bytes(parts[1].as_slice(), user_agent.as_slice()) {
            Route::UserAgent
        } else if parts[1].len() == 0 {
            Route::Root
        } else {
            Route::NotFound
        }
    } else {
        Route::NotFound
    }
}

} // verus!

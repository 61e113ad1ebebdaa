//! Response construction for static files and misses, and the publisher
//! that mirrors a directory tree onto GET routes of a router.

use vstd::prelude::*;
use vstd::string::{StrSliceExecFns, StringExecFns, StringSliceAdditionalSpecFns};
use crate::fs::{routes_after_entries, publish_spec, publish_all_spec, FsNode};
use crate::router::{Action, Router};

verus! {

/// One outbound HTTP response: a status code, the exact body bytes, and an
/// explicit content type where one is set (the transport's default applies
/// where none is).
pub struct HttpResponse {
    pub status: u16,
    pub body: Vec<u8>,
    pub content_type: Option<String>,
}

/// The content type that the MIME inference collaborator derives from a
/// file path; a fixed function of the path alone.
pub uninterp spec fn mime_type_of(path: Seq<char>) -> Seq<char>;

/// Relies on `mime_guess::from_path` and `MimeGuess::first_or_octet_stream`:
/// the content type is looked up in a fixed table from the path's extension
/// alone, with `application/octet-stream` when the extension has no known
/// mapping.
#[verifier::external_body]
fn guess_content_type(file_path: &String) -> (r: String)
    ensures
        r@ == mime_type_of(file_path@),
{
    mime_guess::from_path(file_path.as_str()).first_or_octet_stream().to_string()
}

/// Joins two pieces of text.
fn join2(a: &str, b: &str) -> (r: String)
    ensures
        r@ == a@ + b@,
{
    let mut s = String::from_str(a);
    s.append(b);
    s
}

/// Joins three pieces of text.
fn join3(a: &str, b: &str, c: &str) -> (r: String)
    ensures
        r@ == a@ + b@ + c@,
{
    let mut s = String::from_str(a);
    s.append(b);
    s.append(c);
    s
}

pub struct ServerUtilities;

impl ServerUtilities {
    /// Builds the response for a request that matched a static-file route:
    /// `file` holds the file's bytes when it could be opened and read, and
    /// nothing when it could not. Success yields 200 with the file's exact
    /// bytes and the content type inferred from its path; failure yields 404
    /// with a plain-text body.
    pub fn serve_file(file: Option<Vec<u8>>, file_path: &String) -> (r: HttpResponse)
        ensures
            match file {
                Some(bytes) => {
                    &&& r.status == 200
                    &&& r.body@ == bytes@
                    &&& r.content_type matches Some(ct) && ct@ == mime_type_of(file_path@)
                },
                None => {
                    &&& r.status == 404
                    &&& r.body@ == "File Not Found".spec_bytes()
                    &&& r.content_type is None
                },
            },
    {
        match file {
            Some(bytes) => {
                let mime_type = guess_content_type(file_path);
                HttpResponse { status: 200, body: bytes, content_type: Some(mime_type) }
            },
            None => HttpResponse {
                status: 404,
                body: "File Not Found".as_bytes_vec(),
                content_type: None,
            },
        }
    }

    /// Builds the fallback response for a request that no route matched:
    /// `not_found_doc` holds the bytes of the configured not-found document
    /// when it exists. Either way the status is 404; with the document the
    /// body is its bytes served as HTML, without it the body is a fixed
    /// plain-text message.
    pub fn serve_error(not_found_doc: Option<Vec<u8>>) -> (r: HttpResponse)
        ensures
            r.status == 404,
            match not_found_doc {
                Some(bytes) => {
                    &&& r.body@ == bytes@
                    &&& r.content_type matches Some(ct) && ct@ == "text/html; charset=UTF-8"@
                },
                None => {
                    &&& r.body@ == "Error 404: Not Found! Try with /hello".spec_bytes()
                    &&& r.content_type is None
                },
            },
    {
        match not_found_doc {
            Some(bytes) => HttpResponse {
                status: 404,
                body: bytes,
                content_type: Some(String::from_str("text/html; charset=UTF-8")),
            },
            None => HttpResponse {
                status: 404,
                body: "Error 404: Not Found! Try with /hello".as_bytes_vec(),
                content_type: None,
            },
        }
    }

    /// Publishes the directory `public` into `router`: registers a GET route
    /// for every file beneath it, at "/" followed by the file's path
    /// relative to `public`, whose action serves that file.
    pub fn serve_static(public: &FsNode, router: &mut Router)
        requires
            *public is Dir,
        ensures
            final(router)@ == publish_spec(old(router)@, *public),
    {
        match public {
            FsNode::Dir { name, entries } => {
                let fs_prefix = join2(name.as_str(), "/");
                let rel_prefix = String::new();
                proof {
                    reveal_strlit("/");
                    assert(fs_prefix@ =~= public->Dir_name@ + seq!['/']);
                    assert(rel_prefix@ =~= Seq::<char>::empty());
                }
                publish_entries(entries, &fs_prefix, &rel_prefix, router);
            },
            FsNode::File { .. } => {
                proof {
                    assert(false);
                }
            },
        }
    }

    /// Publishes each of the given directories in order; a later directory
    /// overwrites any route an earlier one bound at the same path.
    pub fn public_folders_handler(public_folders: &Vec<FsNode>, router: &mut Router)
        requires
            forall|i: int| 0 <= i < public_folders@.len() ==> public_folders@[i] is Dir,
        ensures
            final(router)@ == publish_all_spec(old(router)@, public_folders@),
    {
        let ghost m0 = router@;
        let ghost roots = public_folders@;
        proof {
            assert(roots.skip(0) =~= roots);
        }
        let mut i: usize = 0;
        while i < public_folders.len()
            invariant
                i <= roots.len(),
                public_folders@ == roots,
                forall|j: int| 0 <= j < roots.len() ==> roots[j] is Dir,
                publish_all_spec(router@, roots.skip(i as int)) == publish_all_spec(m0, roots),
            decreases roots.len() - i,
        {
            let ghost m_before = router@;
            Self::serve_static(&public_folders[i], router);
            proof {
                assert(roots.skip(i as int)[0] == roots[i as int]);
                assert(roots.skip(i as int).drop_first() =~= roots.skip(i as int + 1));
            }
            i += 1;
        }
        proof {
            assert(roots.skip(roots.len() as int) =~= Seq::<FsNode>::empty());
        }
    }
}

/// Publishes each entry of `entries` in order, where `fs_prefix` is the
/// filesystem path of the directory holding them and `rel_prefix` its path
/// relative to the published root, both with a trailing separator where
/// nonempty.
fn publish_entries(entries: &Vec<FsNode>, fs_prefix: &String, rel_prefix: &String, router: &mut Router)
    ensures
        final(router)@ == routes_after_entries(old(router)@, entries@, fs_prefix@, rel_prefix@),
    decreases entries@,
{
    let ghost m0 = router@;
    let ghost s = entries@;
    proof {
        assert(s.skip(0) =~= s);
    }
    let mut i: usize = 0;
    while i < entries.len()
        invariant
            i <= s.len(),
            entries@ == s,
            routes_after_entries(router@, s.skip(i as int), fs_prefix@, rel_prefix@)
                == routes_after_entries(m0, s, fs_prefix@, rel_prefix@),
        decreases s.len() - i,
    {
        publish_node(&entries[i], fs_prefix, rel_prefix, router);
        proof {
            assert(s.skip(i as int)[0] == s[i as int]);
            assert(s.skip(i as int).drop_first() =~= s.skip(i as int + 1));
        }
        i += 1;
    }
    proof {
        assert(s.skip(s.len() as int) =~= Seq::<FsNode>::empty());
    }
}

/// Publishes one directory entry: a file is registered as a GET route, a
/// directory is walked with both prefixes extended by its name.
fn publish_node(node: &FsNode, fs_prefix: &String, rel_prefix: &String, router: &mut Router)
    ensures
        final(router)@ == crate::fs::routes_after_node(old(router)@, *node, fs_prefix@, rel_prefix@),
    decreases *node,
{
    match node {
        FsNode::File { name } => {
            let endpoint = join3("/", rel_prefix.as_str(), name.as_str());
            let file_path = join2(fs_prefix.as_str(), name.as_str());
            proof {
                reveal_strlit("/");
                assert(endpoint@ =~= seq!['/'] + rel_prefix@ + name@);
            }
            router.add_route("GET", endpoint.as_str(), Action::ServeFile { file_path });
        },
        FsNode::Dir { name, entries } => {
            let sub_fs = join3(fs_prefix.as_str(), name.as_str(), "/");
            let sub_rel = join3(rel_prefix.as_str(), name.as_str(), "/");
            proof {
                reveal_strlit("/");
                assert(sub_fs@ =~= fs_prefix@ + name@ + seq!['/']);
                assert(sub_rel@ =~= rel_prefix@ + name@ + seq!['/']);
            }
            publish_entries(entries, &sub_fs, &sub_rel, router);
        },
    }
}

} // verus!

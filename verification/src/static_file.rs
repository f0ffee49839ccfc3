//! The static-file stage: the path resolver, the containment guard and the
//! file responder composed into one pipeline stage. The stage decides; the
//! filesystem's answer about the candidate path — found with these bytes,
//! or nothing servable — is handed in by whoever runs the stage, so the
//! decision is checked for every answer the filesystem could give.

use vstd::prelude::*;
use crate::http::{Method, Request, Response};
use crate::paths::{
    contain, contain_spec, contained_in, lemma_containment, parsed_url_path, url_to_file_path,
    with_index,
};
use crate::pipeline::Outcome;

verus! {

/// The filesystem's answer about one candidate path: an existing regular
/// file with exactly these bytes, or nothing servable there.
pub enum FileProbe {
    Found(Vec<u8>),
    Absent,
}

/// One pipeline stage that serves files under `fs_root` for request paths
/// under `url_root`. Both are set once at construction and never change;
/// `fs_root` is expected already canonical (no symlinks, no `.` or `..`).
pub struct StaticFile {
    url_root: String,
    fs_root: String,
}

impl StaticFile {
    pub closed spec fn spec_url_root(&self) -> Seq<char> {
        self.url_root@
    }

    pub closed spec fn spec_fs_root(&self) -> Seq<char> {
        self.fs_root@
    }

    pub fn new(url_root: String, fs_root: String) -> (s: StaticFile)
        ensures
            s.spec_url_root() == url_root@,
            s.spec_fs_root() == fs_root@,
    {
        StaticFile { fs_root: fs_root, url_root: url_root }
    }

    /// The candidate filesystem path this stage would serve for a request:
    /// `None` where the stage does not apply — wrong method, a target that
    /// does not parse, a non-matching prefix, or a remainder the guard
    /// refuses.
    pub open spec fn target_spec(&self, req: Request) -> Option<Seq<char>> {
        if req.method == Method::Get || req.method == Method::Head {
            match parsed_url_path(req.path@) {
                Some(p) => contain_spec(with_index(p), self.spec_url_root(), self.spec_fs_root()),
                None => None,
            }
        } else {
            None
        }
    }

    /// Resolve the request's path and run it through the containment guard,
    /// giving the one filesystem path this stage may serve for it. Whatever
    /// the request held, that path lies within the filesystem root.
    pub fn target(&self, req: &Request) -> (t: Option<String>)
        ensures
            match t {
                Some(path) => self.target_spec(*req) == Some(path@),
                None => self.target_spec(*req) is None,
            },
            t matches Some(path) ==> contained_in(path@, self.spec_fs_root()),
    {
        if req.method == Method::Get || req.method == Method::Head {
            match url_to_file_path(&req.path) {
                Some(file_path) => match contain(&file_path, &self.url_root, &self.fs_root) {
                    Some(path) => {
                        proof {
                            lemma_containment(file_path@, self.url_root@, self.fs_root@, path@);
                        }
                        Some(path)
                    },
                    None => None,
                },
                None => None,
            }
        } else {
            None
        }
    }

    /// The stage's whole decision for one request, `probe` being the
    /// filesystem's answer for `target(req)`. Only full success — the stage
    /// applies, the guard accepts, the probe found a regular file — streams
    /// the bytes and terminates the chain; everything else (wrong method,
    /// non-matching prefix, malformed or escaping path, missing file)
    /// passes the triple through unchanged for a later stage.
    pub fn serve_file<Ctx>(&self, req: Request, res: Response, ctx: Ctx, probe: FileProbe) -> (out:
        Outcome<Ctx>)
        requires
            !res.is_committed(),
        ensures
            self.target_spec(req) is Some && probe is Found <==> out is Terminate,
            self.target_spec(req) is None || probe is Absent ==> out == Outcome::Continue(
                req,
                res,
                ctx,
            ),
    {
        if req.method == Method::Get || req.method == Method::Head {
            if let Some(file_path) = url_to_file_path(&req.path) {
                if let Some(_path) = contain(&file_path, &self.url_root, &self.fs_root) {
                    if let FileProbe::Found(contents) = probe {
                        // the committed response leaves with the
                        // termination: no later stage may see or rewrite it
                        let _finished = res.send_file(contents);
                        return Outcome::Terminate;
                    }
                }
            }
        }
        Outcome::Continue(req, res, ctx)
    }
}

} // verus!

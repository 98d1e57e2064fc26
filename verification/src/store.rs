//! The certificate store: per-domain bundle paths, and plans of file
//! operations for atomic writes and backups.
//!
//! The store never mutates a live file in place. Every write goes to a
//! uniquely-named temporary file in the target directory, gets its final
//! permissions there, and is renamed over the target as the last step. A
//! plan (`Vec<FileOp>`) describes the operations in order; the application
//! carries them out against the real filesystem, and the model here
//! (`FsModel`, `apply_ops`) is what the atomicity lemmas speak about.

use vstd::prelude::*;
use vstd::string::StringExecFns;
use crate::config::{AppConfig, find_domain};

verus! {

/// One certificate bundle: the three PEM artifacts for a domain. The chain
/// slot deliberately duplicates the fullchain when the issuing library does
/// not expose a separate intermediate chain.
#[derive(Debug, Clone)]
pub struct CertificateBundle {
    pub domain: String,
    pub fullchain_pem: String,
    pub chain_pem: String,
    pub private_key_pem: String,
}

/// A single filesystem operation of a plan. `WriteTmp` creates the file
/// (with `mode` applied before the name becomes visible to anyone who knows
/// only the final name), `Rename` atomically moves it over the target, and
/// `CopyFile` copies a file if its source exists, doing nothing otherwise.
#[derive(Debug, Clone)]
pub enum FileOp {
    MkDirs { path: String },
    WriteTmp { path: String, content: String, mode: u32 },
    Rename { from: String, to: String },
    CopyFile { from: String, to: String },
}

/// The filesystem as the model sees it: a map from path to file content.
pub type FsModel = Map<Seq<char>, Seq<char>>;

/// The content at `p`, or `None` when no such file exists.
pub open spec fn file_at(fs: FsModel, p: Seq<char>) -> Option<Seq<char>> {
    if fs.contains_key(p) {
        Some(fs[p])
    } else {
        None
    }
}

/// The effect of one operation on the model. Creating directories does not
/// touch any file; a rename of a missing source, or a copy of a missing
/// source, does nothing.
pub open spec fn apply_op(fs: FsModel, op: FileOp) -> FsModel {
    match op {
        FileOp::MkDirs { path } => fs,
        FileOp::WriteTmp { path, content, mode } => fs.insert(path@, content@),
        FileOp::Rename { from, to } => if fs.contains_key(from@) {
            fs.remove(from@).insert(to@, fs[from@])
        } else {
            fs
        },
        FileOp::CopyFile { from, to } => if fs.contains_key(from@) {
            fs.insert(to@, fs[from@])
        } else {
            fs
        },
    }
}

/// The effect of a whole plan, first operation first.
pub open spec fn apply_ops(fs: FsModel, ops: Seq<FileOp>) -> FsModel
    decreases ops.len(),
{
    if ops.len() == 0 {
        fs
    } else {
        apply_ops(apply_op(fs, ops[0]), ops.drop_first())
    }
}

pub proof fn lemma_apply_ops_concat(fs: FsModel, a: Seq<FileOp>, b: Seq<FileOp>)
    ensures
        apply_ops(fs, a + b) == apply_ops(apply_ops(fs, a), b),
    decreases a.len(),
{
    if a.len() == 0 {
        assert(a + b =~= b);
    } else {
        assert((a + b)[0] == a[0]);
        assert((a + b).drop_first() =~= a.drop_first() + b);
        lemma_apply_ops_concat(apply_op(fs, a[0]), a.drop_first(), b);
    }
}

/// `dir/name`.
pub open spec fn joined(dir: Seq<char>, name: Seq<char>) -> Seq<char> {
    dir + seq!['/'] + name
}

/// Joins a directory and an entry name with a slash.
pub fn path_join(dir: &str, name: &str) -> (r: String)
    ensures
        r@ == joined(dir@, name@),
{
    let mut s = String::from_str(dir);
    s.append("/");
    s.append(name);
    proof {
        reveal_strlit("/");
        assert(s@ =~= joined(dir@, name@));
    }
    s
}

/// Two joined paths with slash-free names are equal only when both parts are.
pub proof fn lemma_joined_injective(b: Seq<char>, c: Seq<char>, n1: Seq<char>, n2: Seq<char>)
    requires
        forall|i: int| 0 <= i < n1.len() ==> n1[i] != '/',
        forall|i: int| 0 <= i < n2.len() ==> n2[i] != '/',
        joined(b, n1) == joined(c, n2),
    ensures
        b == c,
        n1 == n2,
{
    let j1 = joined(b, n1);
    let j2 = joined(c, n2);
    assert(j1.len() == b.len() + 1 + n1.len());
    assert(j2.len() == c.len() + 1 + n2.len());
    assert(j1[b.len() as int] == '/');
    assert(j2[c.len() as int] == '/');
    if n1.len() < n2.len() {
        // the slash of j1 would land inside n2
        let p = b.len() as int;
        assert(p == c.len() + 1 + n2.len() - n1.len() - 1);
        assert(p - c.len() - 1 >= 0);
        assert(j2[p] == n2[p - c.len() - 1]);
        assert(false);
    }
    if n2.len() < n1.len() {
        let p = c.len() as int;
        assert(p == b.len() + 1 + n1.len() - n2.len() - 1);
        assert(j1[p] == n1[p - b.len() - 1]);
        assert(false);
    }
    assert(n1.len() == n2.len() && b.len() == c.len());
    assert forall|i: int| 0 <= i < b.len() implies b[i] == c[i] by {
        assert(j1[i] == b[i] && j2[i] == c[i]);
    }
    assert(b =~= c);
    assert forall|i: int| 0 <= i < n1.len() implies n1[i] == n2[i] by {
        assert(j1[b.len() + 1 + i] == n1[i] && j2[c.len() + 1 + i] == n2[i]);
    }
    assert(n1 =~= n2);
}

pub open spec fn fullchain_name() -> Seq<char> {
    "fullchain.pem"@
}

pub open spec fn chain_name() -> Seq<char> {
    "chain.pem"@
}

pub open spec fn privkey_name() -> Seq<char> {
    "privkey.pem"@
}

/// The three bundle file names are slash-free, pairwise distinct, and none
/// starts with a dot.
pub proof fn lemma_bundle_names()
    ensures
        forall|i: int| 0 <= i < fullchain_name().len() ==> fullchain_name()[i] != '/',
        forall|i: int| 0 <= i < chain_name().len() ==> chain_name()[i] != '/',
        forall|i: int| 0 <= i < privkey_name().len() ==> privkey_name()[i] != '/',
        fullchain_name().len() == 13,
        chain_name().len() == 9,
        privkey_name().len() == 11,
        fullchain_name()[0] == 'f',
        chain_name()[0] == 'c',
        privkey_name()[0] == 'p',
{
    reveal_strlit("fullchain.pem");
    reveal_strlit("chain.pem");
    reveal_strlit("privkey.pem");
}

/// The directory holding a domain's live bundle.
pub open spec fn bundle_dir(certs_root: Seq<char>, domain: Seq<char>) -> Seq<char> {
    joined(certs_root, domain)
}

/// The paths of the three bundle files of the domain named `host`, when it
/// is configured; `None` for an unknown host.
pub fn cert_paths_for_host(cfg: &AppConfig, host: &str) -> (r: Option<(String, String, String)>)
    ensures
        r is Some <==> find_domain(cfg.domains@, host@) is Some,
        r matches Some(t) ==> {
            &&& t.0@ == joined(bundle_dir(cfg.certificates.path@, host@), fullchain_name())
            &&& t.1@ == joined(bundle_dir(cfg.certificates.path@, host@), chain_name())
            &&& t.2@ == joined(bundle_dir(cfg.certificates.path@, host@), privkey_name())
        },
{
    let d = crate::config::lookup_domain(&cfg.domains, host);
    match d {
        None => None,
        Some(dc) => {
            let dir = path_join(cfg.certificates.path.as_str(), dc.name.as_str());
            let f = path_join(dir.as_str(), "fullchain.pem");
            let c = path_join(dir.as_str(), "chain.pem");
            let k = path_join(dir.as_str(), "privkey.pem");
            Some((f, c, k))
        },
    }
}

/// The temporary name used while writing `name`: always dot-prefixed, so it
/// can never collide with a bundle file's final name.
pub open spec fn tmp_file_name(name: Seq<char>, token: Seq<char>) -> Seq<char> {
    ".tmp-"@ + name + seq!['-'] + token
}

/// The shape of an atomic write: ensure the directory, write the full new
/// content to a temporary dot-file with its final permissions, then rename
/// it over the target.
pub open spec fn is_atomic_write_plan(
    ops: Seq<FileOp>,
    dir: Seq<char>,
    name: Seq<char>,
    content: Seq<char>,
    mode: u32,
    token: Seq<char>,
) -> bool {
    &&& ops.len() == 3
    &&& ops[0] matches FileOp::MkDirs { path } && path@ == dir
    &&& ops[1] matches FileOp::WriteTmp { path, content: c, mode: m } && path@ == joined(
        dir,
        tmp_file_name(name, token),
    ) && c@ == content && m == mode
    &&& ops[2] matches FileOp::Rename { from, to } && from@ == joined(
        dir,
        tmp_file_name(name, token),
    ) && to@ == joined(dir, name)
}

/// The plan that writes `dir/name` atomically with the given permissions.
pub fn atomic_write_plan(dir: &str, name: &str, content: &str, mode: u32, token: &str) -> (r: Vec<
    FileOp,
>)
    ensures
        is_atomic_write_plan(r@, dir@, name@, content@, mode, token@),
{
    let mut tmp = String::from_str(".tmp-");
    tmp.append(name);
    tmp.append("-");
    tmp.append(token);
    proof {
        reveal_strlit("-");
        assert(tmp@ =~= tmp_file_name(name@, token@));
    }
    let tmp_path = path_join(dir, tmp.as_str());
    let target = path_join(dir, name);
    let mut ops: Vec<FileOp> = Vec::new();
    ops.push(FileOp::MkDirs { path: String::from_str(dir) });
    ops.push(FileOp::WriteTmp { path: tmp_path, content: String::from_str(content), mode });
    ops.push(FileOp::Rename { from: path_join(dir, tmp.as_str()), to: target });
    ops
}

/// An atomic write never disturbs its target before the final rename: after
/// any proper prefix of the plan the target file is exactly as it was, and
/// after the whole plan it holds the new content.
pub proof fn lemma_atomic_write_atomic(
    fs: FsModel,
    ops: Seq<FileOp>,
    dir: Seq<char>,
    name: Seq<char>,
    content: Seq<char>,
    mode: u32,
    token: Seq<char>,
)
    requires
        is_atomic_write_plan(ops, dir, name, content, mode, token),
        name.len() > 0,
        name[0] != '.',
    ensures
        forall|k: int|
            0 <= k < ops.len() ==> file_at(apply_ops(fs, #[trigger] ops.take(k)), joined(dir, name))
                == file_at(fs, joined(dir, name)),
        file_at(apply_ops(fs, ops), joined(dir, name)) == Some(content),
        !apply_ops(fs, ops).contains_key(joined(dir, tmp_file_name(name, token))),
{
    reveal_strlit(".tmp-");
    let target = joined(dir, name);
    let tmp = joined(dir, tmp_file_name(name, token));
    assert(tmp[dir.len() as int + 1] == '.');
    assert(target[dir.len() as int + 1] == name[0]);
    assert(tmp != target);
    lemma_apply_ops_unfold3(fs, ops);
    assert(ops.take(0) =~= Seq::<FileOp>::empty());
    assert(ops.take(1) =~= seq![ops[0]]);
    assert(ops.take(2) =~= seq![ops[0], ops[1]]);
    lemma_apply_ops_unfold3(fs, ops.take(1));
    lemma_apply_ops_unfold3(fs, ops.take(2));
}

/// Unfolds `apply_ops` over plans of up to three operations.
proof fn lemma_apply_ops_unfold3(fs: FsModel, ops: Seq<FileOp>)
    requires
        ops.len() <= 3,
    ensures
        ops.len() == 1 ==> apply_ops(fs, ops) == apply_op(fs, ops[0]),
        ops.len() == 2 ==> apply_ops(fs, ops) == apply_op(apply_op(fs, ops[0]), ops[1]),
        ops.len() == 3 ==> apply_ops(fs, ops) == apply_op(
            apply_op(apply_op(fs, ops[0]), ops[1]),
            ops[2],
        ),
{
    if ops.len() >= 1 {
        let fs1 = apply_op(fs, ops[0]);
        let rest1 = ops.drop_first();
        assert(apply_ops(fs, ops) == apply_ops(fs1, rest1));
        if ops.len() == 1 {
            assert(rest1 =~= Seq::<FileOp>::empty());
            assert(apply_ops(fs1, rest1) == fs1);
        } else {
            assert(rest1[0] == ops[1]);
            let fs2 = apply_op(fs1, ops[1]);
            let rest2 = rest1.drop_first();
            assert(apply_ops(fs1, rest1) == apply_ops(fs2, rest2));
            if ops.len() == 2 {
                assert(rest2 =~= Seq::<FileOp>::empty());
                assert(apply_ops(fs2, rest2) == fs2);
            } else {
                assert(rest2[0] == ops[2]);
                let fs3 = apply_op(fs2, ops[2]);
                let rest3 = rest2.drop_first();
                assert(apply_ops(fs2, rest2) == apply_ops(fs3, rest3));
                assert(rest3 =~= Seq::<FileOp>::empty());
                assert(apply_ops(fs3, rest3) == fs3);
            }
        }
    }
}

/// An atomic write touches nothing but its target and its temporary file.
pub proof fn lemma_atomic_write_frame(
    fs: FsModel,
    ops: Seq<FileOp>,
    dir: Seq<char>,
    name: Seq<char>,
    content: Seq<char>,
    mode: u32,
    token: Seq<char>,
    p: Seq<char>,
)
    requires
        is_atomic_write_plan(ops, dir, name, content, mode, token),
        p != joined(dir, name),
        p != joined(dir, tmp_file_name(name, token)),
    ensures
        forall|k: int|
            0 <= k <= ops.len() ==> file_at(apply_ops(fs, #[trigger] ops.take(k)), p) == file_at(
                fs,
                p,
            ),
{
    lemma_apply_ops_unfold3(fs, ops);
    assert(ops.take(0) =~= Seq::<FileOp>::empty());
    assert(ops.take(1) =~= seq![ops[0]]);
    assert(ops.take(2) =~= seq![ops[0], ops[1]]);
    assert(ops.take(3) =~= ops);
    lemma_apply_ops_unfold3(fs, ops.take(1));
    lemma_apply_ops_unfold3(fs, ops.take(2));
}

/// Owner read/write only: the private key's permissions.
pub open spec fn key_mode() -> u32 {
    0o600
}

/// Owner read/write, group and world read: the certificate files' permissions.
pub open spec fn cert_mode() -> u32 {
    0o644
}

/// The shape of a full bundle write: three atomic writes in a row, fullchain
/// then chain then private key, the key written world-unreadable.
pub open spec fn is_bundle_plan(
    ops: Seq<FileOp>,
    dir: Seq<char>,
    full: Seq<char>,
    chain: Seq<char>,
    key: Seq<char>,
    t1: Seq<char>,
    t2: Seq<char>,
    t3: Seq<char>,
) -> bool {
    &&& ops.len() == 9
    &&& is_atomic_write_plan(ops.subrange(0, 3), dir, fullchain_name(), full, cert_mode(), t1)
    &&& is_atomic_write_plan(ops.subrange(3, 6), dir, chain_name(), chain, cert_mode(), t2)
    &&& is_atomic_write_plan(ops.subrange(6, 9), dir, privkey_name(), key, key_mode(), t3)
}

/// Relies on `uuid::Uuid::new_v4` and its `Display` form: a fresh random
/// token for temporary file names, 36 characters in the hyphenated format.
/// Nothing else is promised of its value.
#[verifier::external_body]
fn fresh_token() -> (r: String)
    ensures
        r@.len() == 36,
{
    uuid::Uuid::new_v4().to_string()
}

/// The plan that replaces the live bundle of `domain` under `certs_root`
/// with the three artifacts of `bundle`, each write atomic.
pub fn write_bundle_plan(certs_root: &str, domain: &str, bundle: &CertificateBundle) -> (r: Vec<
    FileOp,
>)
    ensures
        exists|t1: Seq<char>, t2: Seq<char>, t3: Seq<char>|
            #[trigger] is_bundle_plan(
                r@,
                bundle_dir(certs_root@, domain@),
                bundle.fullchain_pem@,
                bundle.chain_pem@,
                bundle.private_key_pem@,
                t1,
                t2,
                t3,
            ),
{
    let dir = path_join(certs_root, domain);
    let k1 = fresh_token();
    let k2 = fresh_token();
    let k3 = fresh_token();
    let mut ops = atomic_write_plan(
        dir.as_str(),
        "fullchain.pem",
        bundle.fullchain_pem.as_str(),
        0o644,
        k1.as_str(),
    );
    let mut p2 = atomic_write_plan(
        dir.as_str(),
        "chain.pem",
        bundle.chain_pem.as_str(),
        0o644,
        k2.as_str(),
    );
    let mut p3 = atomic_write_plan(
        dir.as_str(),
        "privkey.pem",
        bundle.private_key_pem.as_str(),
        0o600,
        k3.as_str(),
    );
    let ghost g1 = ops@;
    let ghost g2 = p2@;
    let ghost g3 = p3@;
    ops.append(&mut p2);
    ops.append(&mut p3);
    proof {
        assert(ops@ =~= g1 + g2 + g3);
        assert(ops@.subrange(0, 3) =~= g1);
        assert(ops@.subrange(3, 6) =~= g2);
        assert(ops@.subrange(6, 9) =~= g3);
        assert(is_bundle_plan(
            ops@,
            bundle_dir(certs_root@, domain@),
            bundle.fullchain_pem@,
            bundle.chain_pem@,
            bundle.private_key_pem@,
            k1@,
            k2@,
            k3@,
        ));
    }
    ops
}

/// Readers racing a bundle write always see, for each of the three files,
/// either the fully-old or the fully-new content: a target changes exactly
/// at its own rename, and a write interrupted at any earlier point leaves it
/// untouched.
pub proof fn lemma_bundle_write_atomic(
    fs: FsModel,
    ops: Seq<FileOp>,
    dir: Seq<char>,
    full: Seq<char>,
    chain: Seq<char>,
    key: Seq<char>,
    t1: Seq<char>,
    t2: Seq<char>,
    t3: Seq<char>,
)
    requires
        is_bundle_plan(ops, dir, full, chain, key, t1, t2, t3),
    ensures
        forall|k: int|
            0 <= k <= 9 ==> file_at(
                apply_ops(fs, #[trigger] ops.take(k)),
                joined(dir, fullchain_name()),
            ) == (if k >= 3 {
                Some(full)
            } else {
                file_at(fs, joined(dir, fullchain_name()))
            }),
        forall|k: int|
            0 <= k <= 9 ==> file_at(
                apply_ops(fs, #[trigger] ops.take(k)),
                joined(dir, chain_name()),
            ) == (if k >= 6 {
                Some(chain)
            } else {
                file_at(fs, joined(dir, chain_name()))
            }),
        forall|k: int|
            0 <= k <= 9 ==> file_at(
                apply_ops(fs, #[trigger] ops.take(k)),
                joined(dir, privkey_name()),
            ) == (if k >= 9 {
                Some(key)
            } else {
                file_at(fs, joined(dir, privkey_name()))
            }),
        !apply_ops(fs, ops).contains_key(joined(dir, tmp_file_name(fullchain_name(), t1))),
        !apply_ops(fs, ops).contains_key(joined(dir, tmp_file_name(chain_name(), t2))),
        !apply_ops(fs, ops).contains_key(joined(dir, tmp_file_name(privkey_name(), t3))),
{
    lemma_bundle_names();
    reveal_strlit(".tmp-");
    let a1 = ops.subrange(0, 3);
    let a2 = ops.subrange(3, 6);
    let a3 = ops.subrange(6, 9);
    let fp = joined(dir, fullchain_name());
    let cp = joined(dir, chain_name());
    let kp = joined(dir, privkey_name());
    let fs1 = apply_ops(fs, a1);
    let fs2 = apply_ops(fs1, a2);
    lemma_targets_tmps_distinct(dir, t1, t2, t3);
    lemma_atomic_write_atomic(fs, a1, dir, fullchain_name(), full, cert_mode(), t1);
    lemma_atomic_write_frame(fs, a1, dir, fullchain_name(), full, cert_mode(), t1, cp);
    lemma_atomic_write_frame(fs, a1, dir, fullchain_name(), full, cert_mode(), t1, kp);
    lemma_atomic_write_atomic(fs1, a2, dir, chain_name(), chain, cert_mode(), t2);
    lemma_atomic_write_frame(fs1, a2, dir, chain_name(), chain, cert_mode(), t2, fp);
    lemma_atomic_write_frame(fs1, a2, dir, chain_name(), chain, cert_mode(), t2, kp);
    lemma_atomic_write_atomic(fs2, a3, dir, privkey_name(), key, key_mode(), t3);
    lemma_atomic_write_frame(fs2, a3, dir, privkey_name(), key, key_mode(), t3, fp);
    lemma_atomic_write_frame(fs2, a3, dir, privkey_name(), key, key_mode(), t3, cp);
    assert(a1.take(3) =~= a1);
    assert(a2.take(3) =~= a2);
    assert(a3.take(3) =~= a3);
    // the temporaries are gone: each plan removes its own at its rename,
    // and the later plans never touch an earlier plan's temporary
    let tmp1 = joined(dir, tmp_file_name(fullchain_name(), t1));
    let tmp2 = joined(dir, tmp_file_name(chain_name(), t2));
    let fs3 = apply_ops(fs2, a3);
    lemma_atomic_write_frame(fs1, a2, dir, chain_name(), chain, cert_mode(), t2, tmp1);
    lemma_atomic_write_frame(fs2, a3, dir, privkey_name(), key, key_mode(), t3, tmp1);
    lemma_atomic_write_frame(fs2, a3, dir, privkey_name(), key, key_mode(), t3, tmp2);
    assert(ops =~= (a1 + a2) + a3);
    lemma_apply_ops_concat(fs, a1, a2);
    lemma_apply_ops_concat(fs, a1 + a2, a3);
    assert(apply_ops(fs, ops) == fs3);
    assert(file_at(apply_ops(fs1, a2.take(3)), tmp1) == file_at(fs1, tmp1));
    assert(file_at(apply_ops(fs2, a3.take(3)), tmp1) == file_at(fs2, tmp1));
    assert(file_at(apply_ops(fs2, a3.take(3)), tmp2) == file_at(fs2, tmp2));
    assert forall|k: int| 0 <= k <= 9 implies {
        &&& file_at(apply_ops(fs, #[trigger] ops.take(k)), fp) == (if k >= 3 {
            Some(full)
        } else {
            file_at(fs, fp)
        })
        &&& file_at(apply_ops(fs, ops.take(k)), cp) == (if k >= 6 {
            Some(chain)
        } else {
            file_at(fs, cp)
        })
        &&& file_at(apply_ops(fs, ops.take(k)), kp) == (if k >= 9 {
            Some(key)
        } else {
            file_at(fs, kp)
        })
    } by {
        if k <= 3 {
            assert(ops.take(k) =~= a1.take(k));
        } else if k <= 6 {
            assert(ops.take(k) =~= a1 + a2.take(k - 3));
            lemma_apply_ops_concat(fs, a1, a2.take(k - 3));
        } else {
            assert(ops.take(k) =~= (a1 + a2) + a3.take(k - 6));
            lemma_apply_ops_concat(fs, a1 + a2, a3.take(k - 6));
            lemma_apply_ops_concat(fs, a1, a2);
        }
    }
}

/// Within one bundle directory the three final names and the three
/// temporaries occupy distinct paths: final names differ pairwise, and a
/// temporary, which starts with a dot, never equals a final name.
proof fn lemma_targets_tmps_distinct(dir: Seq<char>, t1: Seq<char>, t2: Seq<char>, t3: Seq<char>)
    ensures
        joined(dir, fullchain_name()) != joined(dir, chain_name()),
        joined(dir, fullchain_name()) != joined(dir, privkey_name()),
        joined(dir, chain_name()) != joined(dir, privkey_name()),
        joined(dir, fullchain_name()) != joined(dir, tmp_file_name(fullchain_name(), t1)),
        joined(dir, fullchain_name()) != joined(dir, tmp_file_name(chain_name(), t2)),
        joined(dir, fullchain_name()) != joined(dir, tmp_file_name(privkey_name(), t3)),
        joined(dir, chain_name()) != joined(dir, tmp_file_name(fullchain_name(), t1)),
        joined(dir, chain_name()) != joined(dir, tmp_file_name(chain_name(), t2)),
        joined(dir, chain_name()) != joined(dir, tmp_file_name(privkey_name(), t3)),
        joined(dir, privkey_name()) != joined(dir, tmp_file_name(fullchain_name(), t1)),
        joined(dir, privkey_name()) != joined(dir, tmp_file_name(chain_name(), t2)),
        joined(dir, privkey_name()) != joined(dir, tmp_file_name(privkey_name(), t3)),
        joined(dir, tmp_file_name(fullchain_name(), t1)) != joined(
            dir,
            tmp_file_name(chain_name(), t2),
        ),
        joined(dir, tmp_file_name(fullchain_name(), t1)) != joined(
            dir,
            tmp_file_name(privkey_name(), t3),
        ),
        joined(dir, tmp_file_name(chain_name(), t2)) != joined(
            dir,
            tmp_file_name(privkey_name(), t3),
        ),
{
    lemma_bundle_names();
    reveal_strlit(".tmp-");
    let p = dir.len() as int + 1;
    // inside a temporary's name, the wrapped final name starts after ".tmp-"
    assert(joined(dir, tmp_file_name(fullchain_name(), t1))[p + 5] == 'f');
    assert(joined(dir, tmp_file_name(chain_name(), t2))[p + 5] == 'c');
    assert(joined(dir, tmp_file_name(privkey_name(), t3))[p + 5] == 'p');
    assert(joined(dir, fullchain_name())[p] == 'f');
    assert(joined(dir, chain_name())[p] == 'c');
    assert(joined(dir, privkey_name())[p] == 'p');
    assert(joined(dir, tmp_file_name(fullchain_name(), t1))[p] == '.');
    assert(joined(dir, tmp_file_name(chain_name(), t2))[p] == '.');
    assert(joined(dir, tmp_file_name(privkey_name(), t3))[p] == '.');
    assert(joined(dir, fullchain_name()).len() != joined(dir, chain_name()).len());
    assert(joined(dir, fullchain_name()).len() != joined(dir, privkey_name()).len());
    assert(joined(dir, chain_name()).len() != joined(dir, privkey_name()).len());
}

/// A backup snapshot as recorded after the copies ran: whose bundle was
/// snapshotted, under which timestamp, and where the snapshot lives.
#[derive(Debug, Clone)]
pub struct BackupSnapshot {
    pub domain: String,
    pub stamp: String,
    pub dir: String,
}

/// The directory of one timestamped snapshot of `domain`.
pub open spec fn snapshot_dir(backup_root: Seq<char>, domain: Seq<char>, stamp: Seq<char>) -> Seq<
    char,
> {
    joined(joined(backup_root, domain), stamp)
}

/// The shape of a backup: ensure the snapshot directory, then copy each of
/// the three bundle files. A copy of a file that does not exist does
/// nothing, so the snapshot ends up holding exactly the subset that existed.
pub open spec fn is_backup_plan(ops: Seq<FileOp>, bdir: Seq<char>, cdir: Seq<char>) -> bool {
    &&& ops.len() == 4
    &&& ops[0] matches FileOp::MkDirs { path } && path@ == bdir
    &&& ops[1] matches FileOp::CopyFile { from, to } && from@ == joined(cdir, fullchain_name())
        && to@ == joined(bdir, fullchain_name())
    &&& ops[2] matches FileOp::CopyFile { from, to } && from@ == joined(cdir, chain_name()) && to@
        == joined(bdir, chain_name())
    &&& ops[3] matches FileOp::CopyFile { from, to } && from@ == joined(cdir, privkey_name())
        && to@ == joined(bdir, privkey_name())
}

/// The plan that snapshots whatever bundle files `domain` has before they
/// are overwritten. The three flags say which files the application found on
/// disk; no snapshot is made when none existed.
pub fn backup_plan(
    backup_root: &str,
    certs_root: &str,
    domain: &str,
    stamp: &str,
    have_fullchain: bool,
    have_chain: bool,
    have_key: bool,
) -> (r: Option<Vec<FileOp>>)
    ensures
        r is Some <==> (have_fullchain || have_chain || have_key),
        r matches Some(ops) ==> is_backup_plan(
            ops@,
            snapshot_dir(backup_root@, domain@, stamp@),
            bundle_dir(certs_root@, domain@),
        ),
{
    if !(have_fullchain || have_chain || have_key) {
        return None;
    }
    let ddir = path_join(backup_root, domain);
    let bdir = path_join(ddir.as_str(), stamp);
    let cdir = path_join(certs_root, domain);
    let mut ops: Vec<FileOp> = Vec::new();
    ops.push(FileOp::MkDirs { path: bdir.clone() });
    ops.push(
        FileOp::CopyFile {
            from: path_join(cdir.as_str(), "fullchain.pem"),
            to: path_join(bdir.as_str(), "fullchain.pem"),
        },
    );
    ops.push(
        FileOp::CopyFile {
            from: path_join(cdir.as_str(), "chain.pem"),
            to: path_join(bdir.as_str(), "chain.pem"),
        },
    );
    ops.push(
        FileOp::CopyFile {
            from: path_join(cdir.as_str(), "privkey.pem"),
            to: path_join(bdir.as_str(), "privkey.pem"),
        },
    );
    Some(ops)
}

/// A backup snapshot holds exactly the subset of the three bundle files that
/// existed immediately before the copies, each with the live content, and
/// the live bundle itself is untouched.
pub proof fn lemma_backup_exact(fs: FsModel, ops: Seq<FileOp>, bdir: Seq<char>, cdir: Seq<char>)
    requires
        is_backup_plan(ops, bdir, cdir),
        bdir != cdir,
        // the snapshot directory is fresh
        !fs.contains_key(joined(bdir, fullchain_name())),
        !fs.contains_key(joined(bdir, chain_name())),
        !fs.contains_key(joined(bdir, privkey_name())),
    ensures
        ({
            let m = apply_ops(fs, ops);
            &&& file_at(m, joined(bdir, fullchain_name())) == (if fs.contains_key(
                joined(cdir, fullchain_name()),
            ) {
                file_at(fs, joined(cdir, fullchain_name()))
            } else {
                None::<Seq<char>>
            })
            &&& file_at(m, joined(bdir, chain_name())) == (if fs.contains_key(
                joined(cdir, chain_name()),
            ) {
                file_at(fs, joined(cdir, chain_name()))
            } else {
                None::<Seq<char>>
            })
            &&& file_at(m, joined(bdir, privkey_name())) == (if fs.contains_key(
                joined(cdir, privkey_name()),
            ) {
                file_at(fs, joined(cdir, privkey_name()))
            } else {
                None::<Seq<char>>
            })
            &&& file_at(m, joined(cdir, fullchain_name())) == file_at(
                fs,
                joined(cdir, fullchain_name()),
            )
            &&& file_at(m, joined(cdir, chain_name())) == file_at(fs, joined(cdir, chain_name()))
            &&& file_at(m, joined(cdir, privkey_name())) == file_at(
                fs,
                joined(cdir, privkey_name()),
            )
        }),
{
    lemma_bundle_names();
    // no snapshot destination coincides with a live source
    assert forall|n1: Seq<char>, n2: Seq<char>|
        {
            &&& (n1 == fullchain_name() || n1 == chain_name() || n1 == privkey_name())
            &&& (n2 == fullchain_name() || n2 == chain_name() || n2 == privkey_name())
        } implies #[trigger] joined(bdir, n1) != #[trigger] joined(cdir, n2) by {
        if joined(bdir, n1) == joined(cdir, n2) {
            lemma_joined_injective(bdir, cdir, n1, n2);
        }
    }
    // the destinations are pairwise distinct (their names differ in length)
    assert(joined(bdir, fullchain_name()).len() != joined(bdir, chain_name()).len());
    assert(joined(bdir, fullchain_name()).len() != joined(bdir, privkey_name()).len());
    assert(joined(bdir, chain_name()).len() != joined(bdir, privkey_name()).len());
    let fs1 = apply_op(fs, ops[0]);
    let fs2 = apply_op(fs1, ops[1]);
    let fs3 = apply_op(fs2, ops[2]);
    let fs4 = apply_op(fs3, ops[3]);
    let r1 = ops.drop_first();
    assert(apply_ops(fs, ops) == apply_ops(fs1, r1));
    assert(r1[0] == ops[1]);
    let r2 = r1.drop_first();
    assert(apply_ops(fs1, r1) == apply_ops(fs2, r2));
    assert(r2[0] == ops[2]);
    let r3 = r2.drop_first();
    assert(apply_ops(fs2, r2) == apply_ops(fs3, r3));
    assert(r3[0] == ops[3]);
    let r4 = r3.drop_first();
    assert(apply_ops(fs3, r3) == apply_ops(fs4, r4));
    assert(r4 =~= Seq::<FileOp>::empty());
    assert(apply_ops(fs4, r4) == fs4);
    assert(apply_ops(fs, ops) == fs4);
}

} // verus!

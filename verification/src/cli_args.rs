//! Argument parsing for the commands of the command-line front end.
//!
//! Each parser walks the arguments once, left to right, the way the
//! command reads them: flags that take a value consume the next argument,
//! the first non-flag arguments fill the positional slots, and anything
//! else is refused with the message the command prints.

use vstd::prelude::*;
use crate::cli::parsed_unsigned;
use crate::text::{push_str, starts_with, str_eq, str_starts_with, to_owned, views};

verus! {

/// The options of `design`.
#[derive(Debug)]
pub struct DesignArgs {
    pub prd: String,
    pub out_path: Option<String>,
    pub dry_run: bool,
    pub no_critique: bool,
    pub skills: Vec<String>,
}

/// `design`'s options while reading them.
pub struct DesignScan {
    pub prd: Option<Seq<char>>,
    pub out_path: Option<Seq<char>>,
    pub dry_run: bool,
    pub no_critique: bool,
    pub skills: Seq<Seq<char>>,
}

pub open spec fn opt_view(o: Option<String>) -> Option<Seq<char>> {
    match o {
        Some(s) => Some(s@),
        None => None,
    }
}

/// `a` is an option flag.
pub open spec fn is_flag(a: Seq<char>) -> bool {
    starts_with(a, "--"@)
}

/// `design`'s options from argument `i` on.
pub open spec fn design_scan(args: Seq<Seq<char>>, i: nat, st: DesignScan) -> Result<DesignScan, Seq<char>>
    decreases args.len() - i,
{
    if i >= args.len() {
        Ok(st)
    } else {
        let a = args[i as int];
        if a == "--out"@ || a == "-o"@ {
            if i + 1 >= args.len() {
                Err("--out requires a path"@)
            } else {
                design_scan(args, i + 2, DesignScan { out_path: Some(args[(i + 1) as int]), ..st })
            }
        } else if a == "--dry-run"@ {
            design_scan(args, i + 1, DesignScan { dry_run: true, ..st })
        } else if a == "--no-critique"@ {
            design_scan(args, i + 1, DesignScan { no_critique: true, ..st })
        } else if a == "--skill"@ {
            if i + 1 >= args.len() {
                Err("--skill requires a skill name"@)
            } else {
                design_scan(args, i + 2, DesignScan { skills: st.skills.push(args[(i + 1) as int]), ..st })
            }
        } else if !is_flag(a) && st.prd is None {
            design_scan(args, i + 1, DesignScan { prd: Some(a), ..st })
        } else {
            Err("unexpected arg: "@ + a)
        }
    }
}

/// `design`'s options, or the message that refuses them.
pub open spec fn design_args(args: Seq<Seq<char>>) -> Result<DesignScan, Seq<char>> {
    match design_scan(
        args,
        0,
        DesignScan { prd: None, out_path: None, dry_run: false, no_critique: false, skills: seq![] },
    ) {
        Err(e) => Err(e),
        Ok(st) => if st.prd is None {
            Err("usage: codedesign design \"<PRD>\" [--dry-run [--out <file.js>]]"@)
        } else {
            Ok(st)
        },
    }
}

fn unexpected(a: &str) -> (m: String)
    ensures
        m@ == "unexpected arg: "@ + a@,
{
    let mut m = to_owned("unexpected arg: ");
    push_str(&mut m, a);
    m
}

/// Reads `design`'s arguments: `--out`/`-o <file>`, `--dry-run`,
/// `--no-critique`, `--skill <name>` (repeatable) and the PRD.
pub fn parse_design_args(args: &Vec<String>) -> (r: Result<DesignArgs, String>)
    ensures
        match design_args(views(args@)) {
            Ok(st) => r matches Ok(d) && st.prd == Some(d.prd@) && st.out_path == opt_view(d.out_path)
                && st.dry_run == d.dry_run && st.no_critique == d.no_critique && st.skills == views(
                d.skills@,
            ),
            Err(e) => r matches Err(m) && m@ == e,
        },
{
    let ghost a = views(args@);
    let mut prd: Option<String> = None;
    let mut out_path: Option<String> = None;
    let mut dry_run = false;
    let mut no_critique = false;
    let mut skills: Vec<String> = Vec::new();
    assert(views(skills@) =~= Seq::<Seq<char>>::empty());
    let mut i: usize = 0;
    while i < args.len()
        invariant
            i <= args@.len(),
            a == views(args@),
            design_scan(
                a,
                0,
                DesignScan { prd: None, out_path: None, dry_run: false, no_critique: false, skills: seq![] },
            ) == design_scan(
                a,
                i as nat,
                DesignScan { prd: opt_view(prd), out_path: opt_view(out_path), dry_run, no_critique, skills: views(skills@) },
            ),
        decreases args.len() - i,
    {
        let arg = args[i].as_str();
        assert(a[i as int] == arg@);
        if str_eq(arg, "--out") || str_eq(arg, "-o") {
            if i + 1 >= args.len() {
                return Err(to_owned("--out requires a path"));
            }
            assert(a[i + 1] == args@[i + 1]@);
            out_path = Some(args[i + 1].clone());
            i = i + 2;
        } else if str_eq(arg, "--dry-run") {
            dry_run = true;
            i = i + 1;
        } else if str_eq(arg, "--no-critique") {
            no_critique = true;
            i = i + 1;
        } else if str_eq(arg, "--skill") {
            if i + 1 >= args.len() {
                return Err(to_owned("--skill requires a skill name"));
            }
            assert(a[i + 1] == args@[i + 1]@);
            let ghost s0 = skills@;
            skills.push(args[i + 1].clone());
            assert(views(skills@) =~= views(s0).push(args@[i + 1]@));
            i = i + 2;
        } else if !str_starts_with(arg, "--") && prd.is_none() {
            prd = Some(to_owned(arg));
            i = i + 1;
        } else {
            return Err(unexpected(arg));
        }
    }
    match prd {
        Some(prd) => Ok(DesignArgs { prd, out_path, dry_run, no_critique, skills }),
        None => Err(to_owned("usage: codedesign design \"<PRD>\" [--dry-run [--out <file.js>]]")),
    }
}

/// The options of `critique`.
#[derive(Debug)]
pub struct CritiqueArgs {
    pub plan_path: String,
    pub readback_path: String,
    pub skills: Vec<String>,
}

pub struct CritiqueScan {
    pub plan_path: Option<Seq<char>>,
    pub readback_path: Option<Seq<char>>,
    pub skills: Seq<Seq<char>>,
}

pub open spec fn critique_scan(args: Seq<Seq<char>>, i: nat, st: CritiqueScan) -> Result<CritiqueScan, Seq<char>>
    decreases args.len() - i,
{
    if i >= args.len() {
        Ok(st)
    } else {
        let a = args[i as int];
        if a == "--skill"@ {
            if i + 1 >= args.len() {
                Err("--skill requires a skill name"@)
            } else {
                critique_scan(args, i + 2, CritiqueScan { skills: st.skills.push(args[(i + 1) as int]), ..st })
            }
        } else if !is_flag(a) && st.plan_path is None {
            critique_scan(args, i + 1, CritiqueScan { plan_path: Some(a), ..st })
        } else if !is_flag(a) && st.readback_path is None {
            critique_scan(args, i + 1, CritiqueScan { readback_path: Some(a), ..st })
        } else {
            Err("unexpected arg: "@ + a)
        }
    }
}

pub open spec fn critique_args(args: Seq<Seq<char>>) -> Result<CritiqueScan, Seq<char>> {
    match critique_scan(args, 0, CritiqueScan { plan_path: None, readback_path: None, skills: seq![] }) {
        Err(e) => Err(e),
        Ok(st) => if st.plan_path is None || st.readback_path is None {
            Err("usage: codedesign critique <plan.json> <readback.json>"@)
        } else {
            Ok(st)
        },
    }
}

/// Reads `critique`'s arguments: the plan and readback files and
/// `--skill <name>` (repeatable).
pub fn parse_critique_args(args: &Vec<String>) -> (r: Result<CritiqueArgs, String>)
    ensures
        match critique_args(views(args@)) {
            Ok(st) => r matches Ok(c) && st.plan_path == Some(c.plan_path@) && st.readback_path
                == Some(c.readback_path@) && st.skills == views(c.skills@),
            Err(e) => r matches Err(m) && m@ == e,
        },
{
    let ghost a = views(args@);
    let mut plan_path: Option<String> = None;
    let mut readback_path: Option<String> = None;
    let mut skills: Vec<String> = Vec::new();
    assert(views(skills@) =~= Seq::<Seq<char>>::empty());
    let mut i: usize = 0;
    while i < args.len()
        invariant
            i <= args@.len(),
            a == views(args@),
            critique_scan(a, 0, CritiqueScan { plan_path: None, readback_path: None, skills: seq![] })
                == critique_scan(
                a,
                i as nat,
                CritiqueScan { plan_path: opt_view(plan_path), readback_path: opt_view(readback_path), skills: views(skills@) },
            ),
        decreases args.len() - i,
    {
        let arg = args[i].as_str();
        assert(a[i as int] == arg@);
        if str_eq(arg, "--skill") {
            if i + 1 >= args.len() {
                return Err(to_owned("--skill requires a skill name"));
            }
            assert(a[i + 1] == args@[i + 1]@);
            let ghost s0 = skills@;
            skills.push(args[i + 1].clone());
            assert(views(skills@) =~= views(s0).push(args@[i + 1]@));
            i = i + 2;
        } else if !str_starts_with(arg, "--") && plan_path.is_none() {
            plan_path = Some(to_owned(arg));
            i = i + 1;
        } else if !str_starts_with(arg, "--") && readback_path.is_none() {
            readback_path = Some(to_owned(arg));
            i = i + 1;
        } else {
            return Err(unexpected(arg));
        }
    }
    match (plan_path, readback_path) {
        (Some(plan_path), Some(readback_path)) => Ok(CritiqueArgs { plan_path, readback_path, skills }),
        _ => Err(to_owned("usage: codedesign critique <plan.json> <readback.json>")),
    }
}

/// A command with one input file and an optional `--out`/`-o` file
/// (`summarize`, `compile`).
#[derive(Debug)]
pub struct FileArgs {
    pub input: String,
    pub out_path: Option<String>,
}

pub struct FileScan {
    pub input: Option<Seq<char>>,
    pub out_path: Option<Seq<char>>,
}

pub open spec fn file_scan(args: Seq<Seq<char>>, i: nat, st: FileScan) -> Result<FileScan, Seq<char>>
    decreases args.len() - i,
{
    if i >= args.len() {
        Ok(st)
    } else {
        let a = args[i as int];
        if a == "--out"@ || a == "-o"@ {
            if i + 1 >= args.len() {
                Err("--out requires a path"@)
            } else {
                file_scan(args, i + 2, FileScan { out_path: Some(args[(i + 1) as int]), ..st })
            }
        } else if !is_flag(a) && st.input is None {
            file_scan(args, i + 1, FileScan { input: Some(a), ..st })
        } else {
            Err("unexpected arg: "@ + a)
        }
    }
}

/// The input file and `--out` file of a command, or the message that
/// refuses them (`usage` when there is no input file).
pub open spec fn file_args(args: Seq<Seq<char>>, usage: Seq<char>) -> Result<FileScan, Seq<char>> {
    match file_scan(args, 0, FileScan { input: None, out_path: None }) {
        Err(e) => Err(e),
        Ok(st) => if st.input is None {
            Err(usage)
        } else {
            Ok(st)
        },
    }
}

/// Reads the arguments of a command with one input file and an optional
/// `--out`/`-o` file.
pub fn parse_file_args(args: &Vec<String>, usage: &str) -> (r: Result<FileArgs, String>)
    ensures
        match file_args(views(args@), usage@) {
            Ok(st) => r matches Ok(f) && st.input == Some(f.input@) && st.out_path == opt_view(
                f.out_path,
            ),
            Err(e) => r matches Err(m) && m@ == e,
        },
{
    let ghost a = views(args@);
    let mut input: Option<String> = None;
    let mut out_path: Option<String> = None;
    let mut i: usize = 0;
    while i < args.len()
        invariant
            i <= args@.len(),
            a == views(args@),
            file_scan(a, 0, FileScan { input: None, out_path: None }) == file_scan(
                a,
                i as nat,
                FileScan { input: opt_view(input), out_path: opt_view(out_path) },
            ),
        decreases args.len() - i,
    {
        let arg = args[i].as_str();
        assert(a[i as int] == arg@);
        if str_eq(arg, "--out") || str_eq(arg, "-o") {
            if i + 1 >= args.len() {
                return Err(to_owned("--out requires a path"));
            }
            assert(a[i + 1] == args@[i + 1]@);
            out_path = Some(args[i + 1].clone());
            i = i + 2;
        } else if !str_starts_with(arg, "--") && input.is_none() {
            input = Some(to_owned(arg));
            i = i + 1;
        } else {
            return Err(unexpected(arg));
        }
    }
    match input {
        Some(input) => Ok(FileArgs { input, out_path }),
        None => Err(to_owned(usage)),
    }
}

/// The options of `ds-query`.
#[derive(Debug)]
pub struct DsQueryArgs {
    pub query: String,
    pub limit: usize,
    pub kind: String,
}

pub struct DsQueryScan {
    pub query: Option<Seq<char>>,
    pub limit: nat,
    pub kind: Seq<char>,
}

pub open spec fn ds_query_scan(args: Seq<Seq<char>>, i: nat, st: DsQueryScan) -> Result<DsQueryScan, Seq<char>>
    decreases args.len() - i,
{
    if i >= args.len() {
        Ok(st)
    } else {
        let a = args[i as int];
        if a == "--kind"@ {
            if i + 1 >= args.len() {
                Err("--kind requires a value"@)
            } else {
                ds_query_scan(args, i + 2, DsQueryScan { kind: args[(i + 1) as int], ..st })
            }
        } else if a == "--limit"@ {
            if i + 1 >= args.len() {
                Err("--limit requires a value"@)
            } else {
                ds_query_scan(
                    args,
                    i + 2,
                    DsQueryScan {
                        limit: match parsed_unsigned(args[(i + 1) as int], usize::MAX as nat) {
                            Some(n) => n,
                            None => 8,
                        },
                        ..st
                    },
                )
            }
        } else if !is_flag(a) && st.query is None {
            ds_query_scan(args, i + 1, DsQueryScan { query: Some(a), ..st })
        } else {
            Err("unexpected arg: "@ + a)
        }
    }
}

pub open spec fn ds_query_args(args: Seq<Seq<char>>) -> Result<DsQueryScan, Seq<char>> {
    match ds_query_scan(args, 0, DsQueryScan { query: None, limit: 8, kind: "any"@ }) {
        Err(e) => Err(e),
        Ok(st) => if st.query is None {
            Err("usage: codedesign ds-query <query> [--kind token|component|any] [--limit N]"@)
        } else {
            Ok(st)
        },
    }
}

/// Reads `ds-query`'s arguments: the query, `--kind <token|component|any>`
/// (default `any`) and `--limit <N>` (default 8, also when N does not
/// read as a number).
pub fn parse_ds_query_args(args: &Vec<String>) -> (r: Result<DsQueryArgs, String>)
    ensures
        match ds_query_args(views(args@)) {
            Ok(st) => r matches Ok(q) && st.query == Some(q.query@) && st.limit == q.limit
                && st.kind == q.kind@,
            Err(e) => r matches Err(m) && m@ == e,
        },
{
    let ghost a = views(args@);
    let mut query: Option<String> = None;
    let mut limit: usize = 8;
    let mut kind = to_owned("any");
    let mut i: usize = 0;
    while i < args.len()
        invariant
            i <= args@.len(),
            a == views(args@),
            ds_query_scan(a, 0, DsQueryScan { query: None, limit: 8, kind: "any"@ }) == ds_query_scan(
                a,
                i as nat,
                DsQueryScan { query: opt_view(query), limit: limit as nat, kind: kind@ },
            ),
        decreases args.len() - i,
    {
        let arg = args[i].as_str();
        assert(a[i as int] == arg@);
        if str_eq(arg, "--kind") {
            if i + 1 >= args.len() {
                return Err(to_owned("--kind requires a value"));
            }
            assert(a[i + 1] == args@[i + 1]@);
            kind = args[i + 1].clone();
            i = i + 2;
        } else if str_eq(arg, "--limit") {
            if i + 1 >= args.len() {
                return Err(to_owned("--limit requires a value"));
            }
            assert(a[i + 1] == args@[i + 1]@);
            limit = match crate::cli::parse_unsigned(args[i + 1].as_str(), usize::MAX as u64) {
                Some(n) => n as usize,
                None => 8,
            };
            i = i + 2;
        } else if !str_starts_with(arg, "--") && query.is_none() {
            query = Some(to_owned(arg));
            i = i + 1;
        } else {
            return Err(unexpected(arg));
        }
    }
    match query {
        Some(query) => Ok(DsQueryArgs { query, limit, kind }),
        None => Err(
            to_owned("usage: codedesign ds-query <query> [--kind token|component|any] [--limit N]"),
        ),
    }
}

} // verus!

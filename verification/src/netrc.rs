//! Finding the wandb API key in a netrc file: where the file is, how its
//! tokens are read, and which password belongs to `machine api.wandb.ai`.

use vstd::prelude::*;

use crate::error::ApiError;
use crate::text::{
    chars_equal, chars_of, is_white_space, opt_view, push_char, string_from_chars, white_space,
};

verus! {

broadcast use vstd::string::group_string_axioms;

/// The machine whose password is the wandb API key.
pub open spec fn wandb_machine() -> Seq<char> {
    seq!['a', 'p', 'i', '.', 'w', 'a', 'n', 'd', 'b', '.', 'a', 'i']
}

pub open spec fn kw_machine() -> Seq<char> {
    seq!['m', 'a', 'c', 'h', 'i', 'n', 'e']
}

pub open spec fn kw_default() -> Seq<char> {
    seq!['d', 'e', 'f', 'a', 'u', 'l', 't']
}

pub open spec fn kw_password() -> Seq<char> {
    seq!['p', 'a', 's', 's', 'w', 'o', 'r', 'd']
}

pub open spec fn kw_login() -> Seq<char> {
    seq!['l', 'o', 'g', 'i', 'n']
}

pub open spec fn kw_account() -> Seq<char> {
    seq!['a', 'c', 'c', 'o', 'u', 'n', 't']
}

/// The white-space separated tokens of `s` (`str::split_whitespace`),
/// defined one character at a time from the left.
pub open spec fn tokens(s: Seq<char>) -> Seq<Seq<char>>
    decreases s.len(),
{
    if s.len() == 0 {
        Seq::empty()
    } else {
        let p = tokens(s.drop_last());
        let c = s.last();
        if is_white_space(c) {
            p
        } else if s.len() == 1 || is_white_space(s[s.len() - 2]) {
            p.push(seq![c])
        } else {
            p.update(p.len() - 1, p.last().push(c))
        }
    }
}

/// The password the netrc tokens give for the wandb machine, reading them
/// from the left: `machine <name>` selects an entry (the wandb one only when
/// `<name>` is `api.wandb.ai`), `default` selects the catch-all entry,
/// `password <secret>` inside the selected entry yields `<secret>`, and the
/// value after `login`, `account` or any other `password` is skipped.
pub open spec fn scan_password(toks: Seq<Seq<char>>, in_target: bool) -> Option<Seq<char>>
    decreases toks.len(),
{
    if toks.len() == 0 {
        None
    } else {
        let t = toks[0];
        let rest = toks.drop_first();
        if t == kw_machine() {
            if rest.len() == 0 {
                None
            } else {
                scan_password(rest.drop_first(), rest[0] == wandb_machine())
            }
        } else if t == kw_default() {
            scan_password(rest, true)
        } else if t == kw_password() && in_target {
            if rest.len() == 0 {
                None
            } else {
                Some(rest[0])
            }
        } else if t == kw_login() || t == kw_account() || t == kw_password() {
            if rest.len() == 0 {
                None
            } else {
                scan_password(rest.drop_first(), in_target)
            }
        } else {
            scan_password(rest, in_target)
        }
    }
}

/// The wandb API key that a netrc file with contents `contents` holds.
pub open spec fn netrc_password(contents: Seq<char>) -> Option<Seq<char>> {
    scan_password(tokens(contents), false)
}

/// The views of a list of character vectors.
pub open spec fn token_views(v: Seq<Vec<char>>) -> Seq<Seq<char>> {
    v.map_values(|t: Vec<char>| t@)
}

/// The white-space separated tokens of `s`.
pub fn split_tokens(s: &str) -> (r: Vec<Vec<char>>)
    ensures
        token_views(r@) == tokens(s@),
{
    let v = chars_of(s);
    let mut done: Vec<Vec<char>> = Vec::new();
    let mut cur: Vec<char> = Vec::new();
    let mut in_token = false;
    let mut i: usize = 0;
    while i < v.len()
        invariant
            i <= v@.len(),
            v@ == s@,
            in_token == (i > 0 && !is_white_space(v@[i - 1])),
            !in_token ==> cur@.len() == 0,
            tokens(v@.take(i as int)) == if in_token {
                token_views(done@).push(cur@)
            } else {
                token_views(done@)
            },
        decreases v@.len() - i,
    {
        let c = v[i];
        let ghost pre = v@.take(i as int);
        let ghost next = v@.take(i + 1);
        assert(next.drop_last() =~= pre);
        assert(next.last() == c);
        if white_space(c) {
            if in_token {
                let ghost old_done = token_views(done@);
                let finished = cur;
                cur = Vec::new();
                done.push(finished);
                assert(token_views(done@) =~= old_done.push(finished@));
            }
            in_token = false;
        } else {
            if in_token {
                proof {
                    assert(next[next.len() - 2] == v@[i - 1]);
                }
                let ghost old_cur = cur@;
                cur.push(c);
                assert(tokens(next) =~= token_views(done@).push(cur@));
            } else {
                proof {
                    if i > 0 {
                        assert(next[next.len() - 2] == v@[i - 1]);
                    }
                }
                cur.push(c);
                assert(cur@ =~= seq![c]);
            }
            in_token = true;
        }
        i = i + 1;
    }
    if in_token {
        let ghost old_done = token_views(done@);
        let finished = cur;
        done.push(finished);
        assert(token_views(done@) =~= old_done.push(finished@));
    }
    assert(v@.take(i as int) =~= s@);
    done
}

fn keyword(k: u8) -> (r: Vec<char>)
    requires
        k < 6,
    ensures
        k == 0 ==> r@ == kw_machine(),
        k == 1 ==> r@ == kw_default(),
        k == 2 ==> r@ == kw_password(),
        k == 3 ==> r@ == kw_login(),
        k == 4 ==> r@ == kw_account(),
        k == 5 ==> r@ == wandb_machine(),
{
    let r = if k == 0 {
        vec!['m', 'a', 'c', 'h', 'i', 'n', 'e']
    } else if k == 1 {
        vec!['d', 'e', 'f', 'a', 'u', 'l', 't']
    } else if k == 2 {
        vec!['p', 'a', 's', 's', 'w', 'o', 'r', 'd']
    } else if k == 3 {
        vec!['l', 'o', 'g', 'i', 'n']
    } else if k == 4 {
        vec!['a', 'c', 'c', 'o', 'u', 'n', 't']
    } else {
        vec!['a', 'p', 'i', '.', 'w', 'a', 'n', 'd', 'b', '.', 'a', 'i']
    };
    assert(k == 0 ==> r@ =~= kw_machine());
    assert(k == 1 ==> r@ =~= kw_default());
    assert(k == 2 ==> r@ =~= kw_password());
    assert(k == 3 ==> r@ =~= kw_login());
    assert(k == 4 ==> r@ =~= kw_account());
    assert(k == 5 ==> r@ =~= wandb_machine());
    r
}

/// The wandb API key held by a netrc file with the given contents: the
/// password of the first selected `machine api.wandb.ai` or `default`
/// entry, as the tokens are read from the left.
pub fn netrc_api_key(contents: &str) -> (r: Option<String>)
    ensures
        match r {
            Some(k) => netrc_password(contents@) == Some(k@),
            None => netrc_password(contents@) is None,
        },
{
    let toks = split_tokens(contents);
    let ghost all = token_views(toks@);
    let machine = keyword(0);
    let default_kw = keyword(1);
    let password = keyword(2);
    let login = keyword(3);
    let account = keyword(4);
    let wandb = keyword(5);
    let mut in_target = false;
    let mut i: usize = 0;
    assert(all.subrange(0, all.len() as int) =~= all);
    while i < toks.len()
        invariant
            i <= toks@.len(),
            all == token_views(toks@),
            all == tokens(contents@),
            machine@ == kw_machine(),
            default_kw@ == kw_default(),
            password@ == kw_password(),
            login@ == kw_login(),
            account@ == kw_account(),
            wandb@ == wandb_machine(),
            netrc_password(contents@) == scan_password(all.subrange(i as int, all.len() as int), in_target),
        decreases toks@.len() - i,
    {
        let ghost rest = all.subrange(i as int, all.len() as int);
        assert(rest[0] == all[i as int]);
        assert(rest.drop_first() =~= all.subrange(i + 1, all.len() as int));
        assert(toks@[i as int]@ == all[i as int]);
        let t = &toks[i];
        if chars_equal(t, &machine) {
            if i + 1 >= toks.len() {
                return None;
            }
            assert(toks@[i + 1]@ == all[i + 1]);
            assert(rest.drop_first().drop_first() =~= all.subrange(i + 2, all.len() as int));
            in_target = chars_equal(&toks[i + 1], &wandb);
            i = i + 2;
        } else if chars_equal(t, &default_kw) {
            in_target = true;
            i = i + 1;
        } else if in_target && chars_equal(t, &password) {
            if i + 1 >= toks.len() {
                return None;
            }
            assert(toks@[i + 1]@ == all[i + 1]);
            return Some(string_from_chars(&toks[i + 1]));
        } else if chars_equal(t, &login) || chars_equal(t, &account) || chars_equal(t, &password) {
            if i + 1 >= toks.len() {
                return None;
            }
            assert(rest.drop_first().drop_first() =~= all.subrange(i + 2, all.len() as int));
            i = i + 2;
        } else {
            i = i + 1;
        }
    }
    None
}

/// Where the netrc file is: `$NETRC` when it is set to a non-empty value,
/// else `.netrc` under `$HOME` (joined as `Path::join` joins), else nowhere.
pub open spec fn spec_netrc_path(netrc_env: Option<Seq<char>>, home: Option<Seq<char>>) -> Option<
    Seq<char>,
> {
    match netrc_env {
        Some(p) if p.len() > 0 => Some(p),
        _ => match home {
            Some(h) => Some(
                if h.len() == 0 {
                    seq!['.', 'n', 'e', 't', 'r', 'c']
                } else if h.last() == '/' {
                    h + seq!['.', 'n', 'e', 't', 'r', 'c']
                } else {
                    h + seq!['/', '.', 'n', 'e', 't', 'r', 'c']
                },
            ),
            None => None,
        },
    }
}

/// Locates the netrc file from the values of `$NETRC` and `$HOME` (`None`
/// where the variable is unset or not valid Unicode).
pub fn netrc_path(netrc_env: Option<String>, home: Option<String>) -> (r: Option<String>)
    ensures
        opt_view(r) == spec_netrc_path(opt_view(netrc_env), opt_view(home)),
{
    if let Some(p) = netrc_env {
        if p.as_str().unicode_len() > 0 {
            return Some(p);
        }
    }
    match home {
        Some(h) => {
            let hv = chars_of(h.as_str());
            let mut s = String::new();
            if hv.len() == 0 {
            } else {
                s.append(h.as_str());
                if hv[hv.len() - 1] != '/' {
                    push_char(&mut s, '/');
                }
            }
            push_char(&mut s, '.');
            push_char(&mut s, 'n');
            push_char(&mut s, 'e');
            push_char(&mut s, 't');
            push_char(&mut s, 'r');
            push_char(&mut s, 'c');
            assert(s@ =~= spec_netrc_path(None, Some(h@))->0);
            Some(s)
        },
        None => None,
    }
}

/// The error when no netrc path can be determined.
pub fn missing_netrc_path_error() -> (r: ApiError)
    ensures
        r matches ApiError::MissingApiKey(m) && m@ == "could not determine netrc path"@,
{
    ApiError::MissingApiKey("could not determine netrc path".to_string())
}

/// The outcome of reading the API key from the netrc file at `path`, given
/// what reading the file gave (its contents, or the text of the failure).
pub fn api_key_from_netrc(path: &str, contents: Result<String, String>) -> (r: Result<
    String,
    ApiError,
>)
    ensures
        match contents {
            Err(e) => r matches Err(ApiError::MissingApiKey(m)) && m@ == "could not read "@ + path@
                + ": "@ + e@,
            Ok(c) => match netrc_password(c@) {
                Some(k) => r matches Ok(key) && key@ == k,
                None => r matches Err(ApiError::MissingApiKey(m)) && m@
                    == "no password for machine `api.wandb.ai` found in "@ + path@,
            },
        },
{
    match contents {
        Err(e) => {
            let mut m = String::new();
            m.append("could not read ");
            m.append(path);
            m.append(": ");
            m.append(e.as_str());
            Err(ApiError::MissingApiKey(m))
        },
        Ok(c) => match netrc_api_key(c.as_str()) {
            Some(k) => Ok(k),
            None => {
                let mut m = String::new();
                m.append("no password for machine `api.wandb.ai` found in ");
                m.append(path);
                Err(ApiError::MissingApiKey(m))
            },
        },
    }
}

} // verus!

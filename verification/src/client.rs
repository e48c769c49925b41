//! The runtime that the TypeScript clients share.

use vstd::prelude::*;
use vstd::string::StringExecFns;

verus! {

/// What the runtime holds between the type of the actions and the address of
/// the server.
pub const RUNTIME_MIDDLE: &'static str = "

export type Enumerable<T> = T | Array<T>

export type SortOrder = \"asc\" | \"desc\"

export interface Response<Meta, Data> {
    meta: Meta
    data: Data
}

export type PagingInfo = {
    count: number
    numberOfPages?: number
}

export type Token = {
    token: string
}

let bearerToken: string | undefined = undefined;
let bearerTokenLoaded: boolean = false;

export function setBearerToken(token: string) {
    localStorage.setItem(\"__teo_bearer_token\", token);
    bearerToken = token;
    bearerTokenLoaded = true;
}

function getBearerToken(): string | undefined {
    if (!bearerTokenLoaded) {
        let token = localStorage.getItem(\"__teo_bearer_token\");
        if (token != null) {
            bearerToken = token
        }
        bearerTokenLoaded = true
    }
    return bearerToken
}

export async function request(url_segment_name: string, action: Action, args: any): Promise<any> {
    let url = \"";

/// What the runtime holds behind the address of the server.
pub const RUNTIME_END: &'static str = "/\" + url_segment_name + \"/action\"
    let response = await fetch(url, {
        method: \"POST\",
        headers: getBearerToken() ? { \"Authorization\": `Bearer ${getBearerToken()}` } : undefined,
        body: JSON.stringify({ action, ...args })
    })
    return await response.json()
}
";

/// The first `n` of `names`, each in double quotes, with bars between them.
pub open spec fn union_text(names: Seq<String>, n: nat) -> Seq<char>
    decreases n,
{
    if n == 0 || n > names.len() {
        Seq::empty()
    } else if n == 1 {
        "\""@ + names[0]@ + "\""@
    } else {
        union_text(names, (n - 1) as nat) + " | "@ + "\""@ + names[n - 1]@ + "\""@
    }
}

/// The text of the runtime for a server at `url` that knows the actions
/// `actions`.
pub open spec fn runtime_text(actions: Seq<String>, url: Seq<char>) -> Seq<char> {
    "type Action = "@ + union_text(actions, actions.len()) + RUNTIME_MIDDLE@ + url + RUNTIME_END@
}

/// Writes the runtime of the TypeScript client: the type of the actions, as
/// the union of their names, and the functions that send a request to the
/// server at `url`.
pub fn generate_runtime_ts(actions: &Vec<String>, url: &str) -> (r: String)
    ensures
        r@ == runtime_text(actions@, url@),
{
    let mut r = "type Action = ".to_owned();
    let ghost lead = r@;
    let mut i: usize = 0;
    while i < actions.len()
        invariant
            0 <= i <= actions.len(),
            r@ == lead + union_text(actions@, i as nat),
        decreases actions.len() - i,
    {
        let ghost before = r@;
        if i > 0 {
            r.append(" | ");
        }
        r.append("\"");
        r.append(actions[i].as_str());
        r.append("\"");
        assert(r@ =~= lead + union_text(actions@, (i + 1) as nat));
        i += 1;
    }
    r.append(RUNTIME_MIDDLE);
    r.append(url);
    r.append(RUNTIME_END);
    r
}

} // verus!

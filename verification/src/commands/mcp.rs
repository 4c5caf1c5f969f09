//! What the settings window shows of the MCP server's registered clients.

use vstd::prelude::*;
use crate::mcp::oauth::store::{client_views, live_clients, newest_first, ClientRecord, ClientView, OAuthStore};

verus! {

/// A registered client as the settings window lists it.
#[derive(Debug)]
pub struct McpClientInfo {
    pub id: String,
    pub name: String,
    pub redirect_uris: Vec<String>,
    pub created_at: i64,
    pub last_used_at: Option<i64>,
}

impl View for McpClientInfo {
    type V = ClientView;

    open spec fn view(&self) -> ClientView {
        ClientView {
            id: self.id@,
            name: self.name@,
            redirect_uris: crate::mcp::oauth::store::strings_view(self.redirect_uris@),
            created_at: self.created_at,
            last_used_at: self.last_used_at,
        }
    }
}

/// Client infos as plain values.
pub open spec fn info_views(v: Seq<McpClientInfo>) -> Seq<ClientView> {
    v.map_values(|c: McpClientInfo| c@)
}

impl McpClientInfo {
    /// The info of a client record, field for field.
    pub fn from_record(c: ClientRecord) -> (r: Self)
        ensures
            r@ == c@,
    {
        McpClientInfo {
            id: c.id,
            name: c.name,
            redirect_uris: c.redirect_uris,
            created_at: c.created_at,
            last_used_at: c.last_used_at,
        }
    }
}

/// The clients that are not revoked, newest registration first.
pub fn mcp_list_clients(store: &OAuthStore) -> (r: Vec<McpClientInfo>)
    ensures
        newest_first(info_views(r@)),
        info_views(r@).to_multiset() == live_clients(store@.clients).to_multiset(),
{
    let clients = store.list_clients();
    let ghost cv = client_views(clients@);
    let mut out: Vec<McpClientInfo> = Vec::new();
    let mut i: usize = 0;
    while i < clients.len()
        invariant
            i <= clients.len(),
            cv == client_views(clients@),
            cv.len() == clients.len(),
            out@.len() == i,
            info_views(out@) == cv.take(i as int),
        decreases clients.len() - i,
    {
        let info = McpClientInfo::from_record(clients[i].duplicate());
        assert(info@ == cv[i as int]);
        let ghost prev = out@;
        out.push(info);
        proof {
            assert forall|k: int| 0 <= k < i + 1 implies info_views(out@)[k] == cv[k] by {
                if k < i {
                    assert(out@[k] == prev[k]);
                    assert(info_views(prev)[k] == cv.take(i as int)[k]);
                }
            }
        }
        i = i + 1;
        assert(info_views(out@) =~= cv.take(i as int));
    }
    assert(cv.take(cv.len() as int) =~= cv);
    out
}

} // verus!

use vstd::prelude::*;
use crate::ids::{BranchId, TenantId};
use crate::messages::{ConnectRequest, Message, MessagePayload};

verus! {

/// Settings of a branch client.
#[derive(Debug, Clone)]
pub struct Config {
    pub tenant_id: String,
    pub branch_id: String,
    pub api_key: String,
    pub hub_url: String,
    pub local_database_url: String,
    pub database_schema: String,
    pub tracked_tables: Vec<String>,
    pub sync_interval_secs: u64,
}

/// A branch's connection settings towards the hub.
pub struct WebSocketClient {
    pub hub_url: String,
    pub tenant_id: TenantId,
    pub branch_id: BranchId,
    pub api_key: String,
}

impl WebSocketClient {
    pub fn new(hub_url: String, tenant_id: String, branch_id: String, api_key: String) -> (r:
        WebSocketClient)
        ensures
            r.hub_url@ == hub_url@,
            r.tenant_id@ == tenant_id@,
            r.branch_id@ == branch_id@,
            r.api_key@ == api_key@,
    {
        WebSocketClient {
            hub_url,
            tenant_id: TenantId(tenant_id),
            branch_id: BranchId(branch_id),
            api_key,
        }
    }

    /// The first frame of a session: `Connect`, with the tenant, branch and key.
    pub fn connect_message(&self, version: String) -> (r: Message)
        ensures
            r.from@ == self.branch_id@,
            r.to is None,
            r.payload matches MessagePayload::Connect(c) && c.tenant_id@ == self.tenant_id@
                && c.branch_id@ == self.branch_id@ && c.api_key@ == self.api_key@ && c.version@
                == version@ && c.capabilities@.len() == 1 && c.capabilities@[0]@ == "sync_v1"@,
    {
        let mut caps: Vec<String> = Vec::new();
        caps.push(String::from_str("sync_v1"));
        let req = ConnectRequest {
            tenant_id: self.tenant_id.clone_id(),
            branch_id: self.branch_id.clone_id(),
            api_key: self.api_key.clone(),
            version,
            capabilities: caps,
            metadata: Vec::new(),
        };
        Message::new(self.branch_id.clone_id(), None, MessagePayload::Connect(req))
    }
}

} // verus!

use vstd::prelude::*;

verus! {

/// The service's configuration, as read from the environment.
pub struct Env {
    pub host: String,
    pub port: usize,
    pub node_id: String,
    pub node_base_url: String,
    pub api_base_url: String,
    pub api_secret: String,
    pub api_heartbeat: usize,
    pub simularity_model_id: String,
    pub simularity_model_path: String,
    pub simularity_model_context_size: usize,
    pub simularity_gpt_session_ttl: usize,
    pub simularity_gpt_session_max: usize,
}

impl Env {
    /// The session ttl (in seconds) and the session limit to start the service with;
    /// `None` where either does not fit in 32 bits.
    pub fn session_limits(&self) -> (r: Option<(u32, u32)>)
        ensures
            r is Some <==> self.simularity_gpt_session_ttl <= u32::MAX && self.simularity_gpt_session_max
                <= u32::MAX,
            r matches Some((t, m)) ==> t == self.simularity_gpt_session_ttl && m == self.simularity_gpt_session_max,
    {
        if self.simularity_gpt_session_ttl > u32::MAX as usize || self.simularity_gpt_session_max > u32::MAX as usize {
            None
        } else {
            Some((self.simularity_gpt_session_ttl as u32, self.simularity_gpt_session_max as u32))
        }
    }
}

} // verus!

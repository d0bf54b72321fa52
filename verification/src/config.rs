use vstd::prelude::*;

use crate::tls::CertificateConfig;

verus! {

/// The proxy's configuration, as read from its TOML file.
#[derive(Debug, Clone)]
pub struct Config {
    pub proxies: Vec<ProxyConfig>,
    pub allow_hosts: Vec<String>,
    pub cf_root_path: String,
    pub log_folder: String,
}

/// One proxied site: the host name it answers for, its upstream servers,
/// its certificate and how its upstreams are health-checked.
#[derive(Debug, Clone)]
pub struct ProxyConfig {
    pub name: String,
    pub upstreams: Vec<String>,
    pub tls_cert: String,
    pub tls_key: String,
    pub is_http_healthcheck: bool,
    pub health_check_host: String,
    pub health_check_path: String,
}


impl Config {
    /// The certificate files of the proxied sites, one per site, in the
    /// file's order.
    pub fn certificate_configs(&self) -> (r: Vec<CertificateConfig>)
        ensures
            r@.len() == self.proxies@.len(),
            forall|i: int|
                0 <= i < r@.len() ==> (#[trigger] r@[i]).cert_path == self.proxies@[i].tls_cert
                    && r@[i].key_path == self.proxies@[i].tls_key,
    {
        let mut r: Vec<CertificateConfig> = Vec::new();
        let mut i: usize = 0;
        while i < self.proxies.len()
            invariant
                i <= self.proxies@.len(),
                r@.len() == i,
                forall|k: int|
                    0 <= k < i ==> (#[trigger] r@[k]).cert_path == self.proxies@[k].tls_cert
                        && r@[k].key_path == self.proxies@[k].tls_key,
            decreases self.proxies@.len() - i,
        {
            let proxy = &self.proxies[i];
            r.push(CertificateConfig { cert_path: proxy.tls_cert.clone(), key_path: proxy.tls_key.clone() });
            i = i + 1;
        }
        r
    }
}

} // verus!

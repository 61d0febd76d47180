use vstd::prelude::*;
use vstd::string::StringExecFns;

use crate::errors::ApiError;

verus! {

/// Where a deployed episode can be reached.
#[derive(Debug)]
pub struct EpisodeInfo {
    pub id: String,
    pub share_link: String,
}

/// The outcome of one deployment.
#[derive(Debug)]
pub struct DeploymentResult {
    pub deployment_id: String,
    pub episode_id: String,
    pub share_link: String,
    pub network: String,
}

/// Registers generated episodes on a network; the proof-of-concept deployer
/// derives the episode id and share link from the deployment id.
pub struct Deployer {
    network: String,
    wrpc_url: Option<String>,
}

impl Deployer {
    /// The network this deployer targets.
    pub closed spec fn spec_network(&self) -> Seq<char> {
        self.network@
    }

    pub fn new(network: &str, wrpc_url: Option<String>) -> (r: Self)
        ensures
            r.spec_network() == network@,
    {
        Deployer { network: network.to_owned(), wrpc_url }
    }

    /// The deployed episode's identity and share link for a deployment id.
    pub fn deploy(&self, id: &str) -> (r: Result<EpisodeInfo, ApiError>)
        ensures
            r is Ok,
            r->Ok_0.id@ == "ep_"@ + id@,
            r->Ok_0.share_link@ == "https://kdapp.fun/play/"@ + id@,
    {
        let mut episode_id = "ep_".to_owned();
        episode_id.append(id);
        let mut share_link = "https://kdapp.fun/play/".to_owned();
        share_link.append(id);
        Ok(EpisodeInfo { id: episode_id, share_link })
    }
}

/// The deployment pipeline: compilation happens at the boundary; this core
/// derives the result record for a deployment id.
pub struct Manager {
    network: String,
    wrpc_url: Option<String>,
    deployer: Deployer,
}

impl Manager {
    /// The network this pipeline targets.
    pub closed spec fn spec_network(&self) -> Seq<char> {
        self.network@
    }

    pub fn new(network: &str, wrpc_url: Option<String>) -> (r: Self)
        ensures
            r.spec_network() == network@,
    {
        let wrpc_for_deployer = match &wrpc_url {
            Some(u) => Some(u.clone()),
            None => None,
        };
        Manager {
            network: network.to_owned(),
            wrpc_url,
            deployer: Deployer::new(network, wrpc_for_deployer),
        }
    }

    /// The deployment record for an already-compiled deployment id.
    pub fn deploy_with_id(&self, deployment_id: &str) -> (r: Result<DeploymentResult, ApiError>)
        ensures
            r is Ok,
            r->Ok_0.deployment_id@ == deployment_id@,
            r->Ok_0.episode_id@ == "ep_"@ + deployment_id@,
            r->Ok_0.share_link@ == "https://kdapp.fun/play/"@ + deployment_id@,
            r->Ok_0.network@ == self.spec_network(),
    {
        let info = match self.deployer.deploy(deployment_id) {
            Ok(i) => i,
            Err(e) => {
                return Err(e);
            },
        };
        Ok(
            DeploymentResult {
                deployment_id: deployment_id.to_owned(),
                episode_id: info.id,
                share_link: info.share_link,
                network: self.network.clone(),
            },
        )
    }
}

} // verus!

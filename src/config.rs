use vstd::prelude::*;

use std::collections::HashMap;

verus! {

#[derive(Debug, Clone)]
pub struct AppConfig {
    pub name: String,
    pub version: String,
    pub data_dir: String,
    pub log_level: String,
}

#[derive(Debug, Clone)]
pub struct WorkingHours {
    pub start: String,
    pub end: String,
}

#[derive(Debug, Clone)]
pub struct TeamConfig {
    pub name: String,
    pub timezone: String,
    pub working_hours: WorkingHours,
    pub working_days: Vec<String>,
}

/// Settings of the assistant; an empty model name leaves the choice to the
/// assistant, and the sampling temperature is kept as the bit pattern of a
/// single-precision float.
#[derive(Debug, Clone)]
pub struct ClaudeConfig {
    pub enabled: bool,
    pub model: String,
    pub max_tokens: u32,
    pub temperature_bits: u32,
    pub api_key_env: String,
}

#[derive(Debug, Clone)]
pub struct McpServerConfig {
    pub command: String,
    pub args: Vec<String>,
    pub working_dir: Option<String>,
    pub env: HashMap<String, String>,
}

#[derive(Debug, Clone)]
pub struct McpConfig {
    pub enabled: bool,
    pub timeout: u32,
    pub retry_attempts: u32,
    pub servers: HashMap<String, McpServerConfig>,
}

#[derive(Debug, Clone)]
pub struct WorkflowConfig {
    pub enabled: bool,
    pub schedule: String,
}

#[derive(Debug, Clone)]
pub struct WorkflowsConfig {
    pub daily_status: WorkflowConfig,
    pub weekly_report: WorkflowConfig,
}

/// Snapshot settings. Compression is named here but not implemented.
#[derive(Debug, Clone)]
pub struct StorageConfig {
    pub backup_enabled: bool,
    pub backup_interval: String,
    pub max_backups: u32,
    pub compression: bool,
}

#[derive(Debug, Clone)]
pub struct Config {
    pub app: AppConfig,
    pub team: TeamConfig,
    pub claude: ClaudeConfig,
    pub mcp: McpConfig,
    pub workflows: WorkflowsConfig,
    pub storage: StorageConfig,
}

/// The bit pattern of the single-precision float 0.7.
pub const DEFAULT_TEMPERATURE_BITS: u32 = 0x3f33_3333;

/// An assistant tool server started with `npx <package>` in the working
/// directory.
fn npx_server(package: &str) -> (r: McpServerConfig)
    ensures
        r.command@ == "npx"@,
        r.args@.len() == 1,
        r.args@[0]@ == package@,
{
    McpServerConfig {
        command: "npx".to_owned(),
        args: vec![package.to_owned()],
        working_dir: Some(".".to_owned()),
        env: HashMap::new(),
    }
}

impl Default for Config {
    /// Data in `./data`, seven snapshots kept, the assistant enabled with the
    /// `slack` and `github` tool servers, reports on weekdays.
    fn default() -> (r: Self)
        ensures
            r.app.data_dir@ == "./data"@,
            r.app.name@ == "Smart Team Manager"@,
            r.team.working_days@.len() == 5,
            r.claude.model@.len() == 0,
            r.claude.max_tokens == 4000,
            r.claude.temperature_bits == DEFAULT_TEMPERATURE_BITS,
            r.mcp.timeout == 30,
            r.mcp.retry_attempts == 3,
            r.storage.backup_enabled,
            r.storage.max_backups == 7,
            r.storage.compression,
    {
        let mut servers: HashMap<String, McpServerConfig> = HashMap::new();
        servers.insert("slack".to_owned(), npx_server("@modelcontextprotocol/server-slack"));
        servers.insert("github".to_owned(), npx_server("@modelcontextprotocol/server-github"));
        Config {
            app: AppConfig {
                name: "Smart Team Manager".to_owned(),
                version: "0.1.0".to_owned(),
                data_dir: "./data".to_owned(),
                log_level: "info".to_owned(),
            },
            team: TeamConfig {
                name: "Engineering Team".to_owned(),
                timezone: "UTC".to_owned(),
                working_hours: WorkingHours { start: "09:00".to_owned(), end: "17:00".to_owned() },
                working_days: vec![
                    "Monday".to_owned(),
                    "Tuesday".to_owned(),
                    "Wednesday".to_owned(),
                    "Thursday".to_owned(),
                    "Friday".to_owned(),
                ],
            },
            claude: ClaudeConfig {
                enabled: true,
                model: String::new(),
                max_tokens: 4000,
                temperature_bits: DEFAULT_TEMPERATURE_BITS,
                api_key_env: "CLAUDE_API_KEY".to_owned(),
            },
            mcp: McpConfig { enabled: true, timeout: 30, retry_attempts: 3, servers },
            workflows: WorkflowsConfig {
                daily_status: WorkflowConfig {
                    enabled: true,
                    schedule: "0 9 * * MON-FRI".to_owned(),
                },
                weekly_report: WorkflowConfig { enabled: true, schedule: "0 17 * * FRI".to_owned() },
            },
            storage: StorageConfig {
                backup_enabled: true,
                backup_interval: "daily".to_owned(),
                max_backups: 7,
                compression: true,
            },
        }
    }
}

} // verus!

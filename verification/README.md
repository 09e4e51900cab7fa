# pg_ha

The decision logic of an agent that keeps a PostgreSQL cluster available: who is primary, when a
node is promoted or demoted, what is written to the replicated store, how a client connection is
routed. Each node runs one agent. The agents agree on a leader lock through a replicated log, and
the holder of the lock is the primary.

`src/` is a Verus library: every function has a contract that is proved, except for the few that
call into another crate or the standard library, whose contracts are relied on. It does no I/O. `app/` is
the program around it: it reads and writes files, runs PostgreSQL's tools, talks to other nodes, and
asks the library what to do next.

## The library

| module | what it holds |
| --- | --- |
| `ha`, `election`, `cycle`, `management`, `operations`, `schedule`, `report` | the control loop as a machine of orders and answers, elections, requests of operators, their steps and their times, what a round of the loop reports |
| `bootstrap`, `slots`, `sync`, `cascading`, `standby_cluster`, `failsafe`, `watchdog`, `callbacks`, `history` | what the agent does beside the loop |
| `postgresql`, `connstr` | PostgreSQL's state, command lines, settings and connection strings |
| `state_machine`, `raft_log`, `store`, `raft_dcs`, `identity` | the replicated key-value store, its log, its keys, its nodes |
| `wal`, `log_file` | the file that holds the replicated log: its records and their checksums |
| `proxy` | health checks and routing of client connections |
| `api`, `auth`, `commands` | the REST API: what is asked, who may ask, what is answered |
| `config`, `dynamic_config`, `cluster`, `error` | configuration, the state of the cluster, errors |
| `json`, `strmap`, `text`, `strip`, `letters`, `clock` | values, maps by text, text, time |

Statements that relate several functions are the public proof functions named `law_…`. Among them:

- what was written to the log file is read back, and a torn last record is dropped;
- at most one node holds the leader lock, and only its holder can renew or release it;
- replicas that apply the same entries hold the same store;
- a leader that cannot reach the store stops PostgreSQL, unless every member confirms it, and so does
  one that the store refuses to renew the lock, unless the cluster is paused;
- a switchover stores the request before it releases the lock, and stops PostgreSQL after that;
- an agent that ends writes a checkpoint as leader, then releases the lock, then stops PostgreSQL.

What comes from other crates (checksums, `bincode`, Base64, JSON strings) and from the standard
library (clocks, lower case, UTF-8) is called through small functions whose bodies are not verified.
Their contracts say what is relied on.

## The program

`pg-ha [pg-ha.yml]` runs an agent; `--validate-config` and `--generate-sample-config` do what they
say. Started under the name `pg-ha-ctl`, the program is the tool for operators.

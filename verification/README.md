# find_threats

`find_threats` finds the software on a host that is known to be vulnerable: the services
that run, and on request every installed package. It asks the OffSeq Radar catalogue for
each of them by its exact coordinate (a package URL or a CPE), and tells which findings
can be reached over the network.

The library under `src/` is written in Verus. A function has a contract that says what it
returns, its own or that of the trait it implements, and Verus proves that it does. The
program under `app/` is ordinary Rust around it: it runs commands, reads files, talks to
the API, and hands the library what it learned.

## The library

| Modules | What they are about |
|---|---|
| `text`, `split`, `number`, `decimals`, `order`, `list`, `table`, `json`, `pattern` | texts, numbers, ranking, tables in key order, JSON values, regular expressions |
| `host`, `services`, `scanners`, `probe` | the operating system, and the services that run on it |
| `packages`, `package_version`, `inventory` | which package owns a binary, and what is installed |
| `net`, `sockets`, `exposure` | listening sockets, and how far they can be reached |
| `windows`, `windows_services`, `windows_scripts`, `winget` | what Windows tells of itself |
| `asset`, `asset_laws`, `purl`, `cpe`, `cpe_laws`, `query` | assets, and the coordinates by which they are asked for |
| `http`, `batch`, `threat`, `plan` | what to do with the replies of the API |
| `api`, `risk`, `scan`, `scan_laws`, `report`, `gate`, `summary`, `sarif`, `ending` | findings, their rank, and the reports |
| `constraints`, `service_lookup`, `service_findings`, `service_report`, `service_sarif` | looking services up by name and matching versions here |
| `config` | the settings that are kept between runs |

Values are specified by their deep views: texts are sequences of characters, tables are
sequences of entries in key order, and a type such as `Asset` has a ghost twin `AssetView`.

What holds of several functions together is stated by public proof functions. Among them:
a finding that is known to be exploited is never hidden by a severity floor
(`scan_laws::kept_hits_are_reported`, `scan_laws::no_floor_hides_an_exploited_hit`), no CVE
stands twice for one asset (`scan_laws::no_cve_stands_twice`), merging assets loses no exposure
(`asset_laws::merging_loses_nothing`), a package URL tells name and version
(`purl::a_purl_tells_name_and_version`), and a request is sent a bounded number of times
(`http::requests_are_bounded`).

## What is trusted

A few functions of std and of other crates are called through declarations whose contracts
are believed: `String::push`, `char::is_alphanumeric`, `str::to_lowercase` and
`str::to_uppercase` in `text`, searches of the `regex` crate in `pattern`, and
`Uuid::new_v4` of the `uuid` crate in `config`. A comment above each says what is claimed.

Floating-point numbers do not occur in the library. A JSON number comes with its text and
with its hundredths and thousandths, by which findings are ranked.

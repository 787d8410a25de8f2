//! The scripts that ask a Windows host what is on it.

use vstd::prelude::*;

verus! {

/// Prints what the registry says of the installation.
pub const DETECT_OS_SCRIPT: &'static str = r#"$ErrorActionPreference='SilentlyContinue'
$cv = Get-ItemProperty 'HKLM:\SOFTWARE\Microsoft\Windows NT\CurrentVersion'
[pscustomobject]@{
  ProductName=$cv.ProductName; DisplayVersion=$cv.DisplayVersion; ReleaseId=$cv.ReleaseId
  CurrentBuild=$cv.CurrentBuild; UBR=$cv.UBR; EditionID=$cv.EditionID
  InstallationType=$cv.InstallationType
  Arch=$(if ($env:PROCESSOR_ARCHITEW6432) { $env:PROCESSOR_ARCHITEW6432 } else { $env:PROCESSOR_ARCHITECTURE })
} | ConvertTo-Json -Compress"#;

/// Prints the programs that the registry can uninstall.
pub const REGISTRY_APPS_SCRIPT: &'static str = r#"$ErrorActionPreference='SilentlyContinue'
$paths=@(
 'HKLM:\SOFTWARE\Microsoft\Windows\CurrentVersion\Uninstall\*',
 'HKLM:\SOFTWARE\WOW6432Node\Microsoft\Windows\CurrentVersion\Uninstall\*',
 'HKCU:\SOFTWARE\Microsoft\Windows\CurrentVersion\Uninstall\*')
@(Get-ItemProperty $paths | Where-Object { $_.DisplayName } |
  Select-Object DisplayName,DisplayVersion) | ConvertTo-Json -Compress"#;

/// Prints the table of `winget list`, wide and as UTF-8.
pub const WINGET_SCRIPT: &'static str = r#"$ErrorActionPreference='SilentlyContinue'
try { [Console]::OutputEncoding=[System.Text.Encoding]::UTF8 } catch {}
winget list --disable-interactivity --accept-source-agreements | Out-String -Width 512"#;

/// Prints the packages of the store.
pub const APPX_SCRIPT: &'static str = "@(Get-AppxPackage | Select-Object Name,Version) | ConvertTo-Json -Compress";

/// Prints the services that run, with their binaries and versions.
pub const SERVICES_SCRIPT: &'static str = r#"$ErrorActionPreference='SilentlyContinue'
@(Get-CimInstance Win32_Service -Filter "State='Running'" | ForEach-Object {
  $p=$_.PathName; $exe=$null; $ver=$null
  if ($p) { if ($p -match '^"([^"]+)"') { $exe=$matches[1] } else { $exe=($p -split ' ')[0] } }
  if ($exe -and (Test-Path $exe)) { try { $vi=(Get-Item $exe).VersionInfo; $ver=$vi.FileVersion; if (-not $ver) { $ver=$vi.ProductVersion } } catch {} }
  [pscustomobject]@{ Name=$_.Name; Display=$_.DisplayName; Exe=$exe; Pid=[int]$_.ProcessId; Version=$ver }
}) | ConvertTo-Json -Compress"#;

/// Prints the TCP sockets that listen, with their processes.
pub const LISTENERS_SCRIPT: &'static str = r#"$ErrorActionPreference='SilentlyContinue'
@(Get-NetTCPConnection -State Listen |
  Select-Object LocalAddress,LocalPort,OwningProcess) | ConvertTo-Json -Compress"#;

/// Prints the updates that are not installed.
pub const MISSING_UPDATES_SCRIPT: &'static str = r#"$ErrorActionPreference='Stop'
try {
  $s = New-Object -ComObject Microsoft.Update.Session
  $r = $s.CreateUpdateSearcher().Search("IsInstalled=0 and Type='Software'")
  @($r.Updates | ForEach-Object {
    [pscustomobject]@{ Title=$_.Title; KBs=@($_.KBArticleIDs); Severity=$_.MsrcSeverity }
  }) | ConvertTo-Json -Compress
} catch { '[]' }"#;

} // verus!

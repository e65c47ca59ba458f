# testdisk

Partition analysis and disk-recovery planning,
with its logic verified by Verus.

- `src/` is the verified library. Every function carries a `requires` /
  `ensures` contract stated over views (`Seq`, `Option`, plain integers)
  and spec functions, and Verus proves the bodies against them.
  - `mbr`, `gpt`, `fs_detect`, `scanner`: reading partition tables and
    filesystem signatures, and the deep scan for lost partitions.
  - `recovery_plan`: turning a scan into a checked recovery plan.
  - `writeback`: guarded sector write-back to images and its backup.
  - `formatter`: planning whole-disk formats and stepping through them.
  - `platform`: host device records and their mapping onto `DiskInfo`.
  - `boot_sector`, `carving`, `recovery`, `imaging`, `report`: boot sector
    diagnosis, signature carving, FAT undelete, imaging records, reports.
  - `cli`: reading the command line and the answers that need no
    device access.
  - `text`, `bytes`: character and byte helpers.
- `tests/` exercises the library on concrete values.
- `app/` is the `mini-testdisk` command line: it reads devices and files,
  runs host tools, and speaks JSON, handing plain values to the library.

The library works on bytes held in memory and takes the host system as a
`HostOs` value, so every platform's behaviour can be checked on any machine.

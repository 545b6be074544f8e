# grandma_launcher

A curated retro game launcher for MiSTer FPGA: a boot splash, a grid of
games with box art driven by a controller, a supervisor that restarts the
grid after each game, and a small admin web server for editing the game
list.

The library in `src/` holds the launcher's logic, verified with Verus:

| Module       | What it decides                                                        |
|--------------|------------------------------------------------------------------------|
| `config`     | the configuration records, their schema check, the recently-played list |
| `paths`      | where every file lives (Unix path joining)                             |
| `framebuf`   | a BGRA software framebuffer and its drawing operations                 |
| `grid`       | selection and navigation, box art decoding, the drawing plan of a frame |
| `input`      | key and axis codes to actions, press/repeat state                      |
| `session`    | the launcher's reaction to each controller event                       |
| `validate`   | checking a game list before it is saved                                |
| `admin`      | request routing, upload limits, answers, `.mra` discovery and sorting   |
| `splash`     | the countdown and escape, the local address from the routing table     |
| `supervisor` | crash backoff                                                          |
| `mister`     | commands to the MiSTer command FIFO                                     |
| `uinput`     | the records that create a virtual keyboard and press a key on it       |
| `text`       | small string operations                                                |

`app/` is the executable around it: file and device I/O, JSON, the HTTP
server, text rasterization and the event loops. It is one binary that acts
as `grandma-supervisor`, `grandma-splash`, `grandma-launcher` or
`grandma-admin` depending on the name it is started under.
